//! The debugger: a main module, its instance and interpreter, breakpoints,
//! and stepping.

use vstd::prelude::*;
use std::collections::HashMap;
use crate::debugger::commands::debugger::{Breakpoint, DebuggerOpts, FunctionFrame, RunResult, StepStyle};
use crate::vm::address::{FuncAddr, MemoryAddr, ModuleIndex};
use crate::vm::executor::{
    invoke_func, result_ok, spec_exec_step, spec_fetch, spec_invocation, top_values, ExecView, Executor,
    HostRequest, Invocation, ReturnValError, Signal, Trap,
};
use crate::vm::func::{FunctionInstance, FunctionType};
use crate::vm::instruction::{InstKind, Instruction};
use crate::vm::module::{DefinedModuleInstance, ExternalValue, ModuleInstance};
use crate::vm::stack::frames_of;
use crate::vm::store::Store;
use crate::vm::utils::str_eq;
use crate::vm::value::{Value, ValueType};

verus! {

/// Why a debugger operation failed.
#[derive(Clone, Debug)]
pub enum DebuggerError {
    /// The main module is no valid WebAssembly module; the validator's message.
    InvalidModule(String),
    NoMainModule,
    NoInstance,
    /// The main module of the instance is no defined module.
    MainModuleNotLoaded,
    /// No function exported under this name.
    FunctionNotFound(String),
    /// No function at this address.
    NoFunction(FuncAddr),
    NoExecutionContext,
    Trap(Trap),
    ReturnValue(ReturnValError),
}

/// Whether `v` is valid WebAssembly, as `wasmparser` decides.
pub uninterp spec fn wasm_valid(bytes: Seq<u8>) -> bool;

#[verifier::external_type_specification]
#[verifier::external_body]
pub struct ExBinaryReaderError(wasmparser::BinaryReaderError);

/// `wasmparser::validate`: whether the bytes are a valid module under the
/// default features. The verdict is named `wasm_valid`. Beside the name: the
/// bare header of version 1 is a valid (empty) module, and that of version 2
/// is refused.
#[verifier::external_body]
fn wasm_validate(bytes: &[u8]) -> (r: Result<(), wasmparser::BinaryReaderError>)
    ensures
        r is Ok <==> wasm_valid(bytes@),
        bytes@ == seq![0x00u8, 0x61, 0x73, 0x6d, 0x01, 0x00, 0x00, 0x00] ==> r is Ok,
        bytes@ == seq![0x00u8, 0x61, 0x73, 0x6d, 0x02, 0x00, 0x00, 0x00] ==> r is Err,
{
    wasmparser::validate(bytes)
}

/// The message of a validation error, from `BinaryReaderError::message`;
/// nothing is stated of it.
#[verifier::external_body]
pub(crate) fn validation_message(e: &wasmparser::BinaryReaderError) -> String {
    e.message().to_string()
}

/// Whether `needle` occurs in `hay`.
pub open spec fn is_substring(needle: Seq<char>, hay: Seq<char>) -> bool {
    exists|i: int| 0 <= i && i + needle.len() <= hay.len() && #[trigger] hay.subrange(i, i + needle.len()) == needle
}

fn chars_of(s: &str) -> (r: Vec<char>)
    ensures
        r@ == s@,
{
    let n = s.unicode_len();
    let mut r: Vec<char> = Vec::new();
    let mut i: usize = 0;
    while i < n
        invariant
            n == s@.len(),
            i <= n,
            r@ == s@.subrange(0, i as int),
        decreases n - i,
    {
        r.push(s.get_char(i));
        i = i + 1;
        assert(r@ =~= s@.subrange(0, i as int));
    }
    assert(s@.subrange(0, n as int) =~= s@);
    r
}

/// Whether `needle` occurs in `hay`.
pub fn str_contains(hay: &str, needle: &str) -> (r: bool)
    ensures
        r == is_substring(needle@, hay@),
{
    let h = chars_of(hay);
    let nd = chars_of(needle);
    if nd.len() > h.len() {
        return false;
    }
    let hl = h.len();
    let mut i: usize = 0;
    while i <= h.len() - nd.len()
        invariant
            hl == h@.len(),
            h@ == hay@,
            nd@ == needle@,
            nd@.len() <= h@.len(),
            i <= h@.len() - nd@.len() + 1,
            forall|k: int| 0 <= k < i ==> #[trigger] h@.subrange(k, k + nd@.len()) != nd@,
        decreases h@.len() - nd@.len() + 1 - i,
    {
        let mut j: usize = 0;
        let mut same = true;
        while j < nd.len()
            invariant
                i + nd@.len() <= h@.len(),
                hl == h@.len(),
                j <= nd@.len(),
                same == forall|m: int| 0 <= m < j ==> h@[i + m] == nd@[m],
            decreases nd@.len() - j,
        {
            if h[i + j] != nd[j] {
                same = false;
            }
            j = j + 1;
        }
        if same {
            assert(h@.subrange(i as int, i + nd@.len()) =~= nd@);
            return true;
        }
        proof {
            let m = choose|m: int| 0 <= m < nd@.len() && h@[i + m] != nd@[m];
            assert(h@.subrange(i as int, i + nd@.len())[m] != nd@[m]);
        }
        i = i + 1;
    }
    proof {
        assert forall|k: int| 0 <= k && k + needle@.len() <= hay@.len() implies #[trigger] hay@.subrange(k, k + needle@.len()) != needle@ by {
            assert(h@.subrange(k, k + nd@.len()) != nd@);
        }
    }
    false
}

/// Breakpoints by function name and by instruction offset.
pub struct Breakpoints {
    function_names: Vec<String>,
    inst_map: HashMap<usize, Breakpoint>,
}

impl Breakpoints {
    pub closed spec fn spec_names(&self) -> Seq<Seq<char>> {
        self.function_names@.map_values(|s: String| s@)
    }

    pub closed spec fn spec_offsets(&self) -> Set<usize> {
        self.inst_map@.dom()
    }

    /// No breakpoint.
    pub fn new() -> (b: Self)
        ensures
            b.spec_names().len() == 0,
            b.spec_offsets().len() == 0,
    {
        let b = Breakpoints { function_names: Vec::new(), inst_map: HashMap::new() };
        assert(b.spec_names() =~= Seq::<Seq<char>>::empty());
        assert(b.spec_offsets() =~= Set::<usize>::empty());
        b
    }

    /// Whether a function breakpoint's name occurs in `name`.
    pub fn should_break_func(&self, name: &str) -> (r: bool)
        ensures
            r == exists|k: int| 0 <= k < self.spec_names().len() && is_substring(#[trigger] self.spec_names()[k], name@),
    {
        let mut i: usize = 0;
        while i < self.function_names.len()
            invariant
                i <= self.function_names@.len(),
                forall|k: int| 0 <= k < i ==> !is_substring(#[trigger] self.spec_names()[k], name@),
            decreases self.function_names@.len() - i,
        {
            if str_contains(name, self.function_names[i].as_str()) {
                assert(self.spec_names()[i as int] == self.function_names@[i as int]@);
                return true;
            }
            assert(self.spec_names()[i as int] == self.function_names@[i as int]@);
            i = i + 1;
        }
        false
    }

    /// Whether an instruction breakpoint sits at the instruction's offset.
    pub fn should_break_inst(&self, inst: &Instruction) -> (r: bool)
        ensures
            r == self.spec_offsets().contains(inst.offset),
    {
        self.inst_map.contains_key(&inst.offset)
    }

    /// Adds a breakpoint; one at a name or offset already set replaces it.
    pub fn insert(&mut self, breakpoint: Breakpoint)
        ensures
            match breakpoint {
                Breakpoint::Function { name } => final(self).spec_offsets() == old(self).spec_offsets()
                    && final(self).spec_names() == (if old(self).spec_names().contains(name@) {
                        old(self).spec_names()
                    } else {
                        old(self).spec_names().push(name@)
                    }),
                Breakpoint::Instruction { inst_offset } => final(self).spec_names() == old(self).spec_names()
                    && final(self).spec_offsets() == old(self).spec_offsets().insert(inst_offset),
            },
    {
        match breakpoint {
            Breakpoint::Function { name } => {
                let mut i: usize = 0;
                while i < self.function_names.len()
                    invariant
                        i <= self.function_names@.len(),
                        *self == *old(self),
                        breakpoint == (Breakpoint::Function { name }),
                        forall|k: int| 0 <= k < i ==> self.spec_names()[k] != name@,
                    decreases self.function_names@.len() - i,
                {
                    if str_eq(self.function_names[i].as_str(), name.as_str()) {
                        assert(self.spec_names()[i as int] == name@);
                        assert(old(self).spec_names().contains(name@));
                        return;
                    }
                    i = i + 1;
                }
                let ghost nv = name@;
                self.function_names.push(name);
                proof {
                    assert(self.spec_names() =~= old(self).spec_names().push(nv));
                    assert(!old(self).spec_names().contains(nv));
                }
            },
            Breakpoint::Instruction { inst_offset } => {
                self.inst_map.insert(inst_offset, Breakpoint::Instruction { inst_offset });
                proof { assert(self.spec_offsets() =~= old(self).spec_offsets().insert(inst_offset)); }
            },
        }
    }
}


/// What a step of the debugger leads to.
#[derive(Clone, Debug)]
pub enum DebugSignal {
    Next,
    End,
    Breakpoint,
    Host(HostRequest),
    /// The budget of steps is spent before the step was complete.
    Paused,
}

/// Stepping over a call goes on while the depth is above the start; stepping
/// out goes on while it is not below.
pub open spec fn strict_of(style: StepStyle) -> bool {
    style == StepStyle::InstOver
}

/// The number of call frames.
pub open spec fn depth(v: ExecView) -> nat {
    frames_of(v.stack).len()
}

/// Whether a step from `pre` hits a breakpoint: the instruction it executed
/// sits at a breakpoint's offset, or it called into a function whose name
/// holds a breakpoint's name.
pub open spec fn spec_hit(bps: Breakpoints, st: Store, pre: ExecView, st2: Store, post: ExecView) -> bool {
    match spec_fetch(st, pre.pc) {
        Some((inst, _)) => bps.spec_offsets().contains(inst.offset)
            || ((inst.kind is Call || inst.kind is CallIndirect) && post.pc.inst_index.0 == 0
                && match st2.spec_func(post.pc.func_addr) {
                    Some(FunctionInstance::Defined(d)) => exists|k: int|
                        0 <= k < bps.spec_names().len() && is_substring(#[trigger] bps.spec_names()[k], d.spec_name()),
                    _ => false,
                }),
        None => false,
    }
}

/// One step of the debugger: a step of the interpreter, and whether it hits
/// a breakpoint.
pub open spec fn spec_dstep(bps: Breakpoints, pre: ExecView, st: Store, post: ExecView, st2: Store, r: Result<DebugSignal, Trap>) -> bool {
    exists|sig: Result<Signal, Trap>| #![trigger spec_exec_step(pre, st, post, st2, sig)]
        spec_exec_step(pre, st, post, st2, sig) && r == match sig {
            Ok(Signal::Next) => if spec_hit(bps, st, pre, st2, post) {
                Ok::<DebugSignal, Trap>(DebugSignal::Breakpoint)
            } else {
                Ok::<DebugSignal, Trap>(DebugSignal::Next)
            },
            Ok(Signal::End) => Ok::<DebugSignal, Trap>(DebugSignal::End),
            Ok(Signal::Host(q)) => Ok::<DebugSignal, Trap>(DebugSignal::Host(q)),
            Err(e) => Err::<DebugSignal, Trap>(e),
        }
}

/// A run of at most `fuel` steps that stops at breakpoints; the outermost
/// function returns values of types `tys`.
pub open spec fn spec_drun(
    bps: Breakpoints,
    pre: ExecView,
    st: Store,
    fuel: nat,
    tys: Seq<ValueType>,
    post: ExecView,
    st2: Store,
    out: Result<RunResult, DebuggerError>,
) -> bool
    decreases fuel,
{
    if fuel == 0 {
        post == pre && st2 == st && out matches Ok(RunResult::Paused)
    } else {
        exists|mid: ExecView, smid: Store, sig: Result<DebugSignal, Trap>|
            #![trigger spec_dstep(bps, pre, st, mid, smid, sig)]
            spec_dstep(bps, pre, st, mid, smid, sig) && match sig {
                Ok(DebugSignal::Next) => spec_drun(bps, mid, smid, (fuel - 1) as nat, tys, post, st2, out),
                Ok(DebugSignal::End) => st2 == smid && post.pc == mid.pc && post.pending == mid.pending
                    && if result_ok(mid.stack, tys) {
                        out matches Ok(RunResult::Finish(v)) && v@ == top_values(mid.stack, tys.len())
                            && post.stack == mid.stack.subrange(0, mid.stack.len() - tys.len())
                    } else {
                        out matches Err(DebuggerError::ReturnValue(_))
                    },
                Ok(DebugSignal::Host(q)) => post == mid && st2 == smid && out == Ok::<RunResult, DebuggerError>(RunResult::Host(q)),
                Ok(DebugSignal::Breakpoint) => post == mid && st2 == smid && out == Ok::<RunResult, DebuggerError>(RunResult::Breakpoint),
                Ok(_) => false,
                Err(e) => post == mid && st2 == smid && out == Err::<RunResult, DebuggerError>(DebuggerError::Trap(e)),
            }
    }
}

/// Steps while the frame depth stays above `d0` (at or above when `strict`
/// is false), at most `fuel` times; a breakpoint, a host request or a trap
/// ends the stepping; otherwise the last signal is the result.
pub open spec fn spec_stepping(
    bps: Breakpoints,
    pre: ExecView,
    st: Store,
    d0: nat,
    strict: bool,
    fuel: nat,
    last: Result<DebugSignal, Trap>,
    post: ExecView,
    st2: Store,
    out: Result<DebugSignal, Trap>,
) -> bool
    decreases fuel,
{
    let go_on = if strict { d0 < depth(pre) } else { d0 <= depth(pre) };
    if !go_on {
        post == pre && st2 == st && out == last
    } else if fuel == 0 {
        post == pre && st2 == st && out == Ok::<DebugSignal, Trap>(DebugSignal::Paused)
    } else {
        exists|mid: ExecView, smid: Store, sig: Result<DebugSignal, Trap>|
            #![trigger spec_dstep(bps, pre, st, mid, smid, sig)]
            spec_dstep(bps, pre, st, mid, smid, sig) && match sig {
                Ok(DebugSignal::Next) | Ok(DebugSignal::End) => spec_stepping(bps, mid, smid, d0, strict, (fuel - 1) as nat, sig, post, st2, out),
                _ => post == mid && st2 == smid && out == sig,
            }
    }
}

/// The instruction at the pc: its offset and whether it is a call.
fn fetch_inst(store: &Store, exec: &Executor) -> (r: Option<(usize, bool)>)
    ensures
        match spec_fetch(*store, exec.pc) {
            Some((inst, _)) => r == Some((inst.offset, inst.kind is Call || inst.kind is CallIndirect)),
            None => r is None,
        },
{
    match store.func(exec.pc.func_addr()) {
        Some(FunctionInstance::Defined(d)) => {
            let insts = d.instructions();
            let i = exec.pc.inst_index().0 as usize;
            if i < insts.len() {
                let is_call = match insts[i].kind {
                    InstKind::Call(_) | InstKind::CallIndirect(_) => true,
                    _ => false,
                };
                Some((insts[i].offset, is_call))
            } else {
                None
            }
        },
        _ => None,
    }
}

/// One step of the interpreter, and whether it hits a breakpoint.
fn debug_step(exec: &mut Executor, store: &mut Store, bps: &Breakpoints) -> (r: Result<DebugSignal, Trap>)
    requires
        old(store).wf(),
    ensures
        final(store).wf(),
        spec_dstep(*bps, old(exec).view(), *old(store), final(exec).view(), *final(store), r),
{
    let fetched = fetch_inst(store, exec);
    let sig = exec.execute_step(store);
    let r = match sig {
        Ok(Signal::Next) => {
            let hit = match fetched {
                Some((offset, is_call)) => {
                    let at_offset = bps.should_break_inst(&Instruction { kind: InstKind::Nop, offset });
                    if at_offset {
                        true
                    } else if is_call && exec.pc.inst_index().0 == 0 {
                        match store.func(exec.pc.func_addr()) {
                            Some(FunctionInstance::Defined(d)) => bps.should_break_func(d.name().as_str()),
                            _ => false,
                        }
                    } else {
                        false
                    }
                },
                None => false,
            };
            if hit {
                Ok(DebugSignal::Breakpoint)
            } else {
                Ok(DebugSignal::Next)
            }
        },
        Ok(Signal::End) => Ok(DebugSignal::End),
        Ok(Signal::Host(q)) => Ok(DebugSignal::Host(q)),
        Err(e) => Err(e),
    };
    proof {
        assert(spec_exec_step(old(exec).view(), *old(store), exec.view(), *store, sig));
    }
    r
}

/// Runs at most `fuel` steps, stopping at breakpoints.
fn debug_run(exec: &mut Executor, store: &mut Store, bps: &Breakpoints, tys: &Vec<ValueType>, fuel: u64) -> (r: Result<RunResult, DebuggerError>)
    requires
        old(store).wf(),
    ensures
        final(store).wf(),
        spec_drun(*bps, old(exec).view(), *old(store), fuel as nat, tys@, final(exec).view(), *final(store), r),
{
    let mut k: u64 = fuel;
    while k > 0
        invariant
            store.wf(),
            k <= fuel,
            forall|post: ExecView, st2: Store, out: Result<RunResult, DebuggerError>|
                #[trigger] spec_drun(*bps, exec.view(), *store, k as nat, tys@, post, st2, out)
                ==> spec_drun(*bps, old(exec).view(), *old(store), fuel as nat, tys@, post, st2, out),
        decreases k,
    {
        let ghost v0 = exec.view();
        let ghost s0 = *store;
        let sig = debug_step(exec, store, bps);
        match sig {
            Ok(DebugSignal::Next) => {
                let k1 = k - 1;
                proof {
                    assert forall|post: ExecView, st2: Store, out: Result<RunResult, DebuggerError>|
                        #[trigger] spec_drun(*bps, exec.view(), *store, k1 as nat, tys@, post, st2, out)
                        implies spec_drun(*bps, old(exec).view(), *old(store), fuel as nat, tys@, post, st2, out) by {
                        assert(spec_dstep(*bps, v0, s0, exec.view(), *store, sig));
                        assert(spec_drun(*bps, v0, s0, k as nat, tys@, post, st2, out));
                    }
                }
                k = k1;
            },
            Ok(DebugSignal::End) => {
                let ghost mid = exec.view();
                let mut types: Vec<ValueType> = Vec::new();
                let mut t: usize = 0;
                while t < tys.len()
                    invariant
                        t <= tys@.len(),
                        types@ == tys@.subrange(0, t as int),
                    decreases tys@.len() - t,
                {
                    types.push(tys[t]);
                    t = t + 1;
                    assert(types@ =~= tys@.subrange(0, t as int));
                }
                assert(tys@.subrange(0, t as int) =~= tys@);
                let r = match exec.pop_result(types) {
                    Ok(v) => {
                        proof { assert(v@ =~= top_values(mid.stack, tys@.len())); }
                        Ok(RunResult::Finish(v))
                    },
                    Err(e) => Err(DebuggerError::ReturnValue(e)),
                };
                proof {
                    assert(spec_dstep(*bps, v0, s0, mid, *store, sig));
                    assert(spec_drun(*bps, v0, s0, k as nat, tys@, exec.view(), *store, r));
                }
                return r;
            },
            Ok(DebugSignal::Breakpoint) => {
                let r = Ok(RunResult::Breakpoint);
                proof {
                    assert(spec_dstep(*bps, v0, s0, exec.view(), *store, sig));
                    assert(spec_drun(*bps, v0, s0, k as nat, tys@, exec.view(), *store, r));
                }
                return r;
            },
            Ok(DebugSignal::Host(q)) => {
                let r = Ok(RunResult::Host(q));
                proof {
                    assert(spec_dstep(*bps, v0, s0, exec.view(), *store, sig));
                    assert(spec_drun(*bps, v0, s0, k as nat, tys@, exec.view(), *store, r));
                }
                return r;
            },
            Ok(DebugSignal::Paused) => {
                proof {
                    let w = choose|w: Result<Signal, Trap>| spec_exec_step(v0, s0, exec.view(), *store, w) && sig == match w {
                        Ok(Signal::Next) => if spec_hit(*bps, s0, v0, *store, exec.view()) {
                            Ok::<DebugSignal, Trap>(DebugSignal::Breakpoint)
                        } else {
                            Ok::<DebugSignal, Trap>(DebugSignal::Next)
                        },
                        Ok(Signal::End) => Ok::<DebugSignal, Trap>(DebugSignal::End),
                        Ok(Signal::Host(q)) => Ok::<DebugSignal, Trap>(DebugSignal::Host(q)),
                        Err(e) => Err::<DebugSignal, Trap>(e),
                    };
                }
                return Ok(RunResult::Paused);
            },
            Err(e) => {
                let r = Err(DebuggerError::Trap(e));
                proof {
                    assert(spec_dstep(*bps, v0, s0, exec.view(), *store, sig));
                    assert(spec_drun(*bps, v0, s0, k as nat, tys@, exec.view(), *store, r));
                }
                return r;
            },
        }
    }
    proof {
        assert(spec_drun(*bps, exec.view(), *store, 0, tys@, exec.view(), *store, Ok::<RunResult, DebuggerError>(RunResult::Paused)));
    }
    Ok(RunResult::Paused)
}

/// Steps while the frame depth stays above `d0` (or at it, when `strict` is
/// false), at most `fuel` times.
fn step_while(exec: &mut Executor, store: &mut Store, bps: &Breakpoints, d0: usize, strict: bool, first: Result<DebugSignal, Trap>, fuel: u64)
    -> (r: Result<DebugSignal, Trap>)
    requires
        old(store).wf(),
    ensures
        final(store).wf(),
        spec_stepping(*bps, old(exec).view(), *old(store), d0 as nat, strict, fuel as nat, first, final(exec).view(), *final(store), r),
{
    let mut k: u64 = fuel;
    let mut last = first;
    loop
        invariant
            store.wf(),
            k <= fuel,
            forall|post: ExecView, st2: Store, out: Result<DebugSignal, Trap>|
                #[trigger] spec_stepping(*bps, exec.view(), *store, d0 as nat, strict, k as nat, last, post, st2, out)
                ==> spec_stepping(*bps, old(exec).view(), *old(store), d0 as nat, strict, fuel as nat, first, post, st2, out),
        decreases k,
    {
        let d = exec.stack.peek_frames().len();
        let go_on = if strict { d0 < d } else { d0 <= d };
        if !go_on {
            proof {
                assert(spec_stepping(*bps, exec.view(), *store, d0 as nat, strict, k as nat, last, exec.view(), *store, last));
            }
            return last;
        }
        if k == 0 {
            let r = Ok(DebugSignal::Paused);
            proof {
                assert(spec_stepping(*bps, exec.view(), *store, d0 as nat, strict, k as nat, last, exec.view(), *store, r));
            }
            return r;
        }
        let ghost v0 = exec.view();
        let ghost s0 = *store;
        let sig = debug_step(exec, store, bps);
        let cont = match sig {
            Ok(DebugSignal::Next) | Ok(DebugSignal::End) => true,
            _ => false,
        };
        if !cont {
            proof {
                assert(spec_dstep(*bps, v0, s0, exec.view(), *store, sig));
                assert(spec_stepping(*bps, v0, s0, d0 as nat, strict, k as nat, last, exec.view(), *store, sig));
            }
            return sig;
        }
        let k1 = k - 1;
        proof {
            assert forall|post: ExecView, st2: Store, out: Result<DebugSignal, Trap>|
                #[trigger] spec_stepping(*bps, exec.view(), *store, d0 as nat, strict, k1 as nat, sig, post, st2, out)
                implies spec_stepping(*bps, old(exec).view(), *old(store), d0 as nat, strict, fuel as nat, first, post, st2, out) by {
                assert(spec_dstep(*bps, v0, s0, exec.view(), *store, sig));
                assert(spec_stepping(*bps, v0, s0, d0 as nat, strict, k as nat, last, post, st2, out));
            }
        }
        k = k1;
        last = sig;
    }
}


/// A running instance: its store, the index of the main module, and the
/// interpreter of the function being run with the types of its results.
pub struct Instance {
    pub main_module_index: ModuleIndex,
    pub store: Store,
    pub executor: Option<Executor>,
    pub ret_types: Vec<ValueType>,
}

/// The debugger of one main module.
pub struct MainDebugger {
    pub instance: Option<Instance>,
    pub main_module: Option<(Vec<u8>, String)>,
    pub opts: DebuggerOpts,
    pub breakpoints: Breakpoints,
}

/// The function a run starts with: the export `name`, else the start
/// function, else the export `_start`; or the name that was missing.
pub open spec fn spec_entry(dm: DefinedModuleInstance, name: Option<Seq<char>>) -> Result<FuncAddr, Seq<char>> {
    match name {
        Some(n) => match dm.spec_exported(n) {
            Some(ExternalValue::Func(a)) => Ok(a),
            _ => Err(n),
        },
        None => match dm.spec_start_func() {
            Some(a) => Ok(a),
            None => match dm.spec_exported("_start"@) {
                Some(ExternalValue::Func(a)) => Ok(a),
                _ => Err("_start"@),
            },
        },
    }
}

/// Whether a run has come to its end: it finished, or its results could not
/// be taken. Nothing is running after such a run.
pub open spec fn run_ended(r: Result<RunResult, DebuggerError>) -> bool {
    r matches Ok(RunResult::Finish(_)) || r matches Err(DebuggerError::ReturnValue(_))
}

fn ended(r: &Result<RunResult, DebuggerError>) -> (b: bool)
    ensures
        b == run_ended(*r),
{
    match r {
        Ok(RunResult::Finish(_)) => true,
        Err(DebuggerError::ReturnValue(_)) => true,
        _ => false,
    }
}

/// Running at most `fuel` steps from `pre` with store `st` leaves the
/// instance `j` with result `r`: the run's store, and its interpreter unless
/// the run has ended, in which case none is left.
pub open spec fn spec_left(
    bps: Breakpoints,
    pre: ExecView,
    st: Store,
    fuel: nat,
    tys: Seq<ValueType>,
    j: Instance,
    r: Result<RunResult, DebuggerError>,
) -> bool {
    exists|post: ExecView| #![trigger spec_drun(bps, pre, st, fuel, tys, post, j.store, r)]
        spec_drun(bps, pre, st, fuel, tys, post, j.store, r)
        && if run_ended(r) { j.executor is None } else { j.executor matches Some(e2) && e2.view() == post }
}

/// Calling `func_addr` with `args` from a state whose instance holds
/// `store`, then running at most `fuel` steps with breakpoints `bps`: the
/// instance after and the result.
pub open spec fn spec_started(
    store: Store,
    func_addr: FuncAddr,
    args: Seq<Value>,
    fuel: nat,
    bps: Breakpoints,
    after: Option<Instance>,
    r: Result<RunResult, DebuggerError>,
) -> bool {
    exists|inv: Result<Invocation, crate::vm::executor::WasmError>|
        #![trigger spec_invocation(store, func_addr, args, inv)]
        spec_invocation(store, func_addr, args, inv) && match inv {
            Ok(Invocation::Host(q)) => r == Ok::<RunResult, DebuggerError>(RunResult::Host(q)),
            Ok(Invocation::Running(e, tys)) => after matches Some(j)
                && (j.ret_types@ == tys@ && spec_left(bps, e.view(), store, fuel, tys@, j, r)),
            Err(crate::vm::executor::WasmError::ExecutionError(t)) => r == Err::<RunResult, DebuggerError>(DebuggerError::Trap(t)),
            Err(_) => false,
        }
}

impl MainDebugger {
    pub open spec fn wf(&self) -> bool {
        self.instance matches Some(i) ==> i.store.wf()
    }

    pub open spec fn spec_main_module(&self) -> Option<(Seq<u8>, Seq<char>)> {
        match self.main_module {
            Some((b, n)) => Some((b@, n@)),
            None => None,
        }
    }

    pub open spec fn spec_opts(&self) -> DebuggerOpts {
        self.opts
    }

    pub open spec fn spec_breakpoints(&self) -> Breakpoints {
        self.breakpoints
    }

    /// The main module of the instance, when it is a defined module.
    pub open spec fn spec_main_defined(&self) -> Option<DefinedModuleInstance> {
        match self.instance {
            Some(i) => match i.store.spec_module(i.main_module_index) {
                Some(ModuleInstance::Defined(dm)) => Some(dm),
                _ => None,
            },
            None => None,
        }
    }

    /// A debugger with no module.
    pub fn new() -> (d: Self)
        ensures
            d.wf(),
            d.instance is None,
            d.spec_main_module() is None,
            d.spec_opts() == (DebuggerOpts { watch_memory: false }),
            d.spec_breakpoints().spec_names().len() == 0,
            d.spec_breakpoints().spec_offsets().len() == 0,
    {
        MainDebugger { instance: None, main_module: None, opts: DebuggerOpts::default(), breakpoints: Breakpoints::new() }
    }

    /// Takes `module` as the main module when it is valid WebAssembly.
    pub fn load_main_module(&mut self, module: &[u8], name: String) -> (r: Result<(), DebuggerError>)
        ensures
            r is Ok <==> wasm_valid(module@),
            r is Err ==> r matches Err(DebuggerError::InvalidModule(_)),
            r is Ok ==> final(self).spec_main_module() == Some((module@, name@)),
            r is Err ==> final(self).spec_main_module() == old(self).spec_main_module(),
            final(self).instance == old(self).instance,
            final(self).spec_opts() == old(self).spec_opts(),
            final(self).spec_breakpoints() == old(self).spec_breakpoints(),
    {
        match wasm_validate(module) {
            Err(e) => Err(DebuggerError::InvalidModule(validation_message(&e))),
            Ok(()) => {
                let mut bytes: Vec<u8> = Vec::new();
                let mut i: usize = 0;
                while i < module.len()
                    invariant
                        i <= module@.len(),
                        bytes@ == module@.subrange(0, i as int),
                    decreases module@.len() - i,
                {
                    bytes.push(module[i]);
                    i = i + 1;
                    assert(bytes@ =~= module@.subrange(0, i as int));
                }
                assert(module@.subrange(0, i as int) =~= module@);
                self.main_module = Some((bytes, name));
                Ok(())
            },
        }
    }

    /// The bytes and the name of the main module.
    pub fn main_module_bytes(&self) -> (r: Option<(&[u8], &str)>)
        ensures
            match self.spec_main_module() {
                Some((b, n)) => r matches Some((b2, n2)) && b2@ == b && n2@ == n,
                None => r is None,
            },
    {
        match &self.main_module {
            Some((b, n)) => Some((b.as_slice(), n.as_str())),
            None => None,
        }
    }

    /// Starts an instance over `store`, whose module `main_module_index` is
    /// the main module.
    pub fn instantiate(&mut self, store: Store, main_module_index: ModuleIndex) -> (r: Result<(), DebuggerError>)
        requires
            store.wf(),
        ensures
            final(self).wf() <== old(self).wf(),
            final(self).spec_main_module() == old(self).spec_main_module(),
            final(self).spec_breakpoints() == old(self).spec_breakpoints(),
            final(self).spec_opts() == old(self).spec_opts(),
            match old(self).spec_main_module() {
                None => r == Err::<(), DebuggerError>(DebuggerError::NoMainModule) && final(self).instance == old(self).instance,
                Some(_) => r is Ok && (final(self).instance matches Some(i) && (i.store == store
                    && i.main_module_index == main_module_index && i.executor is None && i.ret_types@.len() == 0)),
            },
    {
        if self.main_module.is_none() {
            return Err(DebuggerError::NoMainModule);
        }
        self.instance = Some(Instance { main_module_index, store, executor: None, ret_types: Vec::new() });
        Ok(())
    }

    /// The main module of the instance.
    pub fn main_module(&self) -> (r: Result<&DefinedModuleInstance, DebuggerError>)
        ensures
            match self.instance {
                None => r matches Err(DebuggerError::NoInstance),
                Some(_) => match self.spec_main_defined() {
                    Some(dm) => r == Ok::<&DefinedModuleInstance, DebuggerError>(&dm),
                    None => r matches Err(DebuggerError::MainModuleNotLoaded),
                },
            },
    {
        match &self.instance {
            Some(i) => match i.store.module(i.main_module_index) {
                Some(ModuleInstance::Defined(dm)) => Ok(dm),
                _ => Err(DebuggerError::MainModuleNotLoaded),
            },
            None => Err(DebuggerError::NoInstance),
        }
    }

    /// The function the main module exports as `name`.
    pub fn lookup_func(&self, name: &str) -> (r: Result<FuncAddr, DebuggerError>)
        ensures
            match self.instance {
                None => r matches Err(DebuggerError::NoInstance),
                Some(_) => match self.spec_main_defined() {
                    Some(dm) => match dm.spec_exported(name@) {
                        Some(ExternalValue::Func(a)) => r == Ok::<FuncAddr, DebuggerError>(a),
                        _ => r matches Err(DebuggerError::FunctionNotFound(n)) && n@ == name@,
                    },
                    None => r matches Err(DebuggerError::MainModuleNotLoaded),
                },
            },
    {
        let module = match self.main_module() {
            Ok(m) => m,
            Err(e) => return Err(e),
        };
        match module.exported_func(name) {
            Ok(Some(a)) => Ok(a),
            _ => Err(DebuggerError::FunctionNotFound(name.to_owned())),
        }
    }

    /// Calls the function at `func_addr` with `args` and runs at most `fuel`
    /// steps of it.
    pub fn execute_func(&mut self, func_addr: FuncAddr, args: Vec<Value>, fuel: u64) -> (r: Result<RunResult, DebuggerError>)
        requires
            old(self).wf(),
        ensures
            final(self).wf(),
            final(self).spec_main_module() == old(self).spec_main_module(),
            final(self).spec_breakpoints() == old(self).spec_breakpoints(),
            final(self).spec_opts() == old(self).spec_opts(),
            match old(self).instance {
                None => r matches Err(DebuggerError::NoInstance),
                Some(i) => spec_started(i.store, func_addr, args@, fuel as nat, old(self).spec_breakpoints(), final(self).instance, r)
                    && (final(self).instance matches Some(j) && j.main_module_index == i.main_module_index),
            },
    {
        let mut inst = match self.instance.take() {
            Some(i) => i,
            None => return Err(DebuggerError::NoInstance),
        };
        let inv = invoke_func(func_addr, args, &inst.store);
        match inv {
            Ok(Invocation::Host(q)) => {
                self.instance = Some(inst);
                Ok(RunResult::Host(q))
            },
            Ok(Invocation::Running(e, tys)) => {
                let ghost e0 = e;
                let mut exec = e;
                let r = debug_run(&mut exec, &mut inst.store, &self.breakpoints, &tys, fuel);
                let ghost post = exec.view();
                if ended(&r) {
                    inst.executor = None;
                } else {
                    inst.executor = Some(exec);
                }
                inst.ret_types = tys;
                self.instance = Some(inst);
                proof { assert(spec_drun(self.spec_breakpoints(), e0.view(), old(self).instance->0.store, fuel as nat, tys@, post, self.instance->0.store, r)); }
                r
            },
            Err(crate::vm::executor::WasmError::ExecutionError(t)) => {
                self.instance = Some(inst);
                Err(DebuggerError::Trap(t))
            },
            Err(_) => {
                self.instance = Some(inst);
                Err(DebuggerError::NoExecutionContext)
            },
        }
    }

    /// Runs the main module: the export `name`, else its start function,
    /// else its export `_start`.
    pub fn run(&mut self, name: Option<&str>, args: Vec<Value>, fuel: u64) -> (r: Result<RunResult, DebuggerError>)
        requires
            old(self).wf(),
        ensures
            final(self).wf(),
            old(self).instance is None ==> r matches Err(DebuggerError::NoInstance),
            old(self).instance is Some && old(self).spec_main_defined() is None ==> r matches Err(DebuggerError::MainModuleNotLoaded),
            match old(self).spec_main_defined() {
                Some(dm) => match spec_entry(dm, match name { Some(n) => Some(n@), None => None }) {
                    Err(n) => r matches Err(DebuggerError::FunctionNotFound(m)) && m@ == n && *final(self) == *old(self),
                    Ok(a) => old(self).instance matches Some(i)
                        && spec_started(i.store, a, args@, fuel as nat, old(self).spec_breakpoints(), final(self).instance, r),
                },
                None => true,
            },
    {
        let func_addr = {
            let main_module = match self.main_module() {
                Ok(m) => m,
                Err(e) => return Err(e),
            };
            match name {
                Some(n) => match self.lookup_func(n) {
                    Ok(a) => a,
                    Err(e) => return Err(e),
                },
                None => match main_module.start_func_addr() {
                    Some(a) => *a,
                    None => match self.lookup_func("_start") {
                        Ok(a) => a,
                        Err(e) => return Err(e),
                    },
                },
            }
        };
        proof {
            let dm = old(self).spec_main_defined()->0;
            assert(spec_entry(dm, match name { Some(n) => Some(n@), None => None }) == Ok::<FuncAddr, Seq<char>>(func_addr));
        }
        let r = self.execute_func(func_addr, args, fuel);
        r
    }
}


/// The locals of the innermost frame.
pub open spec fn spec_frame_locals(s: Seq<crate::vm::stack::Entry>) -> Seq<Value> {
    let p = crate::vm::stack::last_frame_pos(s);
    if p < 0 {
        Seq::empty()
    } else {
        match s[p] {
            crate::vm::stack::Entry::Activation(f) => f.locals,
            _ => Seq::empty(),
        }
    }
}

/// The name of the function at `addr`: a defined function's own name, or the
/// field an imported one is imported as.
pub open spec fn spec_func_name(st: Store, addr: FuncAddr) -> Seq<char> {
    match st.spec_func(addr) {
        Some(FunctionInstance::Defined(d)) => d.spec_name(),
        Some(FunctionInstance::Host(h)) => h.spec_field_name(),
        None => Seq::empty(),
    }
}

fn func_name(store: &Store, addr: FuncAddr) -> (r: String)
    ensures
        r@ == spec_func_name(*store, addr),
{
    match store.func(addr) {
        Some(FunctionInstance::Defined(d)) => d.name().clone(),
        Some(FunctionInstance::Host(h)) => h.field_name().clone(),
        None => String::new(),
    }
}

impl MainDebugger {
    /// Runs on from where the interpreter stopped, at most `fuel` steps.
    pub fn process(&mut self, fuel: u64) -> (r: Result<RunResult, DebuggerError>)
        requires
            old(self).wf(),
        ensures
            final(self).wf(),
            final(self).spec_main_module() == old(self).spec_main_module(),
            final(self).spec_breakpoints() == old(self).spec_breakpoints(),
            final(self).spec_opts() == old(self).spec_opts(),
            match old(self).instance {
                None => r matches Err(DebuggerError::NoInstance),
                Some(i) => match i.executor {
                    None => r matches Err(DebuggerError::NoExecutionContext) && final(self).instance == old(self).instance,
                    Some(e) => final(self).instance matches Some(j) && (j.main_module_index == i.main_module_index
                        && j.ret_types@ == i.ret_types@
                        && spec_left(old(self).spec_breakpoints(), e.view(), i.store, fuel as nat, i.ret_types@, j, r)),
                },
            },
    {
        let mut inst = match self.instance.take() {
            Some(i) => i,
            None => return Err(DebuggerError::NoInstance),
        };
        let mut exec = match inst.executor.take() {
            Some(e) => e,
            None => {
                self.instance = Some(inst);
                return Err(DebuggerError::NoExecutionContext);
            },
        };
        let ghost e0 = exec.view();
        let r = debug_run(&mut exec, &mut inst.store, &self.breakpoints, &inst.ret_types, fuel);
        let ghost post = exec.view();
        if ended(&r) {
            inst.executor = None;
        } else {
            inst.executor = Some(exec);
        }
        self.instance = Some(inst);
        proof { assert(spec_drun(self.spec_breakpoints(), e0, old(self).instance->0.store, fuel as nat, self.instance->0.ret_types@, post, self.instance->0.store, r)); }
        r
    }

    /// Steps: one instruction, over a call, or out of the current function;
    /// at most `fuel` instructions.
    pub fn step(&mut self, style: StepStyle, fuel: u64) -> (r: Result<DebugSignal, DebuggerError>)
        requires
            old(self).wf(),
        ensures
            final(self).wf(),
            final(self).spec_main_module() == old(self).spec_main_module(),
            final(self).spec_breakpoints() == old(self).spec_breakpoints(),
            final(self).spec_opts() == old(self).spec_opts(),
            match old(self).instance {
                None => r matches Err(DebuggerError::NoInstance),
                Some(i) => match i.executor {
                    None => r matches Err(DebuggerError::NoExecutionContext) && final(self).instance == old(self).instance,
                    Some(e) => final(self).instance matches Some(j) && (j.main_module_index == i.main_module_index
                        && j.ret_types@ == i.ret_types@ && (j.executor matches Some(e2)
                        && exists|mid: ExecView, smid: Store, first: Result<DebugSignal, Trap>|
                            #![trigger spec_dstep(old(self).spec_breakpoints(), e.view(), i.store, mid, smid, first)]
                            spec_dstep(old(self).spec_breakpoints(), e.view(), i.store, mid, smid, first)
                            && match style {
                                StepStyle::InstIn => e2.view() == mid && j.store == smid
                                    && r == match first { Ok(s) => Ok::<DebugSignal, DebuggerError>(s), Err(t) => Err::<DebugSignal, DebuggerError>(DebuggerError::Trap(t)) },
                                _ => match first {
                                    Err(t) => e2.view() == mid && j.store == smid && r == Err::<DebugSignal, DebuggerError>(DebuggerError::Trap(t)),
                                    Ok(_) => exists|out: Result<DebugSignal, Trap>| #![trigger spec_stepping(old(self).spec_breakpoints(), mid, smid, depth(e.view()), strict_of(style), fuel as nat, first, e2.view(), j.store, out)]
                                        spec_stepping(old(self).spec_breakpoints(), mid, smid, depth(e.view()),
                                            strict_of(style), fuel as nat, first, e2.view(), j.store, out)
                                        && r == match out { Ok(s) => Ok::<DebugSignal, DebuggerError>(s), Err(t) => Err::<DebugSignal, DebuggerError>(DebuggerError::Trap(t)) },
                                },
                            })),
                },
            },
    {
        let mut inst = match self.instance.take() {
            Some(i) => i,
            None => return Err(DebuggerError::NoInstance),
        };
        let mut exec = match inst.executor.take() {
            Some(e) => e,
            None => {
                self.instance = Some(inst);
                return Err(DebuggerError::NoExecutionContext);
            },
        };
        let ghost e0 = exec.view();
        let ghost s0 = inst.store;
        let d0 = exec.stack.peek_frames().len();
        let first = debug_step(&mut exec, &mut inst.store, &self.breakpoints);
        let ghost mid = exec.view();
        let ghost smid = inst.store;
        let ghost g_first = first;
        proof {
            assert(spec_dstep(self.breakpoints, e0, s0, mid, smid, g_first));
        }
        let out = match style {
            StepStyle::InstIn => first,
            _ => if first.is_err() {
                first
            } else {
                step_while(&mut exec, &mut inst.store, &self.breakpoints, d0, style == StepStyle::InstOver, first, fuel)
            },
        };
        let ghost e2v = exec.view();
        let ghost s2v = inst.store;
        inst.executor = Some(exec);
        self.instance = Some(inst);
        let r = match out {
            Ok(s) => Ok(s),
            Err(t) => Err(DebuggerError::Trap(t)),
        };
        proof {
            let bps = old(self).spec_breakpoints();
            if style != StepStyle::InstIn {
                match g_first {
                    Err(t) => {
                        assert(e2v == mid);
                        assert(s2v == smid);
                        assert(r == Err::<DebugSignal, DebuggerError>(DebuggerError::Trap(t)));
                    },
                    Ok(_) => {
                        assert(spec_stepping(bps, mid, smid, depth(e0), strict_of(style), fuel as nat, g_first, e2v, s2v, out));
                    },
                }
            } else {
                assert(e2v == mid);
                assert(s2v == smid);
                assert(out == g_first);
            }
            assert(match style {
                StepStyle::InstIn => e2v == mid && s2v == smid
                    && r == match g_first { Ok(s) => Ok::<DebugSignal, DebuggerError>(s), Err(t) => Err::<DebugSignal, DebuggerError>(DebuggerError::Trap(t)) },
                _ => match g_first {
                    Err(t) => e2v == mid && s2v == smid && r == Err::<DebugSignal, DebuggerError>(DebuggerError::Trap(t)),
                    Ok(_) => exists|o: Result<DebugSignal, Trap>| #![trigger spec_stepping(bps, mid, smid, depth(e0), strict_of(style), fuel as nat, g_first, e2v, s2v, o)]
                        spec_stepping(bps, mid, smid, depth(e0), strict_of(style), fuel as nat, g_first, e2v, s2v, o)
                        && r == match o { Ok(s) => Ok::<DebugSignal, DebuggerError>(s), Err(t) => Err::<DebugSignal, DebuggerError>(DebuggerError::Trap(t)) },
                },
            });
            let i = old(self).instance->0;
            let e = i.executor->0;
            assert(e.view() == e0);
            assert(i.store == s0);
            assert(spec_dstep(bps, e.view(), i.store, mid, smid, g_first));
            let j = self.instance->0;
            assert(j.executor->0.view() == e2v);
            assert(j.store == s2v);
        }
        r
    }

    /// How many call frames the interpreter has, when one is running.
    pub fn frame_depth(&self) -> (r: Option<usize>)
        ensures
            match self.instance {
                Some(i) => match i.executor {
                    Some(e) => r matches Some(d) && d as nat == depth(e.view()),
                    None => r is None,
                },
                None => r is None,
            },
    {
        match &self.instance {
            Some(i) => match &i.executor {
                Some(e) => Some(e.stack.peek_frames().len()),
                None => None,
            },
            None => None,
        }
    }

    /// Goes on with a step of `style` that started at frame depth
    /// `start_depth` and stopped before it was complete: steps while the
    /// depth stays above it (over a call) or not below it (out of a
    /// function), at most `fuel` instructions.
    pub fn resume_step(&mut self, style: StepStyle, start_depth: usize, fuel: u64) -> (r: Result<DebugSignal, DebuggerError>)
        requires
            old(self).wf(),
        ensures
            final(self).wf(),
            final(self).spec_main_module() == old(self).spec_main_module(),
            final(self).spec_breakpoints() == old(self).spec_breakpoints(),
            final(self).spec_opts() == old(self).spec_opts(),
            match old(self).instance {
                None => r matches Err(DebuggerError::NoInstance),
                Some(i) => match i.executor {
                    None => r matches Err(DebuggerError::NoExecutionContext) && final(self).instance == old(self).instance,
                    Some(e) => final(self).instance matches Some(j) && (j.main_module_index == i.main_module_index
                        && j.ret_types@ == i.ret_types@ && (j.executor matches Some(e2)
                        && exists|o: Result<DebugSignal, Trap>| #![trigger spec_stepping(old(self).spec_breakpoints(), e.view(), i.store, start_depth as nat, strict_of(style), fuel as nat, Ok::<DebugSignal, Trap>(DebugSignal::Next), e2.view(), j.store, o)]
                            spec_stepping(old(self).spec_breakpoints(), e.view(), i.store, start_depth as nat, strict_of(style), fuel as nat, Ok::<DebugSignal, Trap>(DebugSignal::Next), e2.view(), j.store, o)
                            && r == match o { Ok(s) => Ok::<DebugSignal, DebuggerError>(s), Err(t) => Err::<DebugSignal, DebuggerError>(DebuggerError::Trap(t)) })),
                },
            },
    {
        let mut inst = match self.instance.take() {
            Some(i) => i,
            None => return Err(DebuggerError::NoInstance),
        };
        let mut exec = match inst.executor.take() {
            Some(e) => e,
            None => {
                self.instance = Some(inst);
                return Err(DebuggerError::NoExecutionContext);
            },
        };
        let ghost e0 = exec.view();
        let ghost s0 = inst.store;
        let out = step_while(&mut exec, &mut inst.store, &self.breakpoints, start_depth, style == StepStyle::InstOver, Ok(DebugSignal::Next), fuel);
        let ghost e2v = exec.view();
        let ghost s2v = inst.store;
        inst.executor = Some(exec);
        self.instance = Some(inst);
        proof {
            assert(strict_of(style) == (style == StepStyle::InstOver));
            assert(spec_stepping(self.spec_breakpoints(), e0, s0, start_depth as nat, strict_of(style), fuel as nat, Ok::<DebugSignal, Trap>(DebugSignal::Next), e2v, s2v, out));
        }
        let r = match out {
            Ok(s) => Ok(s),
            Err(t) => Err(DebuggerError::Trap(t)),
        };
        proof {
            assert(self.instance->0.executor->0.view() == e2v);
            assert(self.instance->0.store == s2v);
            assert(r == match out { Ok(s) => Ok::<DebugSignal, DebuggerError>(s), Err(t) => Err::<DebugSignal, DebuggerError>(DebuggerError::Trap(t)) });
            let i = old(self).instance->0;
            assert(i.executor->0.view() == e0);
            assert(i.store == s0);
            assert(old(self).spec_breakpoints() == self.spec_breakpoints());
            assert(spec_stepping(old(self).spec_breakpoints(), i.executor->0.view(), i.store, start_depth as nat, strict_of(style), fuel as nat, Ok::<DebugSignal, Trap>(DebugSignal::Next), self.instance->0.executor->0.view(), self.instance->0.store, out));
        }
        r
    }

    /// Gives the interpreter the results of the work it asked of the embedder.
    pub fn resume(&mut self, results: Vec<Value>) -> (r: Result<(), DebuggerError>)
        requires
            old(self).wf(),
        ensures
            final(self).wf(),
            final(self).spec_main_module() == old(self).spec_main_module(),
            final(self).spec_breakpoints() == old(self).spec_breakpoints(),
            old(self).instance is None ==> r matches Err(DebuggerError::NoInstance),
            old(self).instance matches Some(i) ==> (i.executor is None ==> r matches Err(DebuggerError::NoExecutionContext)),
            old(self).instance matches Some(i) ==> (i.executor matches Some(e) ==> (final(self).instance matches Some(j)
                && (j.store == i.store && (j.executor matches Some(e2)
                && (e2.pc == e.pc && match e.spec_pending() {
                    None => r is Err,
                    Some(tys) => if results@.map_values(|v: Value| v.spec_type()) == tys {
                        r is Ok && e2.stack@ == e.stack@ + crate::vm::executor::values_entries(results@) && e2.spec_pending() is None
                    } else {
                        r is Err
                    },
                }))))),
    {
        let mut inst = match self.instance.take() {
            Some(i) => i,
            None => return Err(DebuggerError::NoInstance),
        };
        let mut exec = match inst.executor.take() {
            Some(e) => e,
            None => {
                self.instance = Some(inst);
                return Err(DebuggerError::NoExecutionContext);
            },
        };
        let r = exec.resume(results);
        inst.executor = Some(exec);
        self.instance = Some(inst);
        match r {
            Ok(()) => Ok(()),
            Err(t) => Err(DebuggerError::Trap(t)),
        }
    }

    /// The signature of the function at `func_addr`.
    pub fn func_type(&self, func_addr: FuncAddr) -> (r: Result<FunctionType, DebuggerError>)
        ensures
            match self.instance {
                None => r matches Err(DebuggerError::NoInstance),
                Some(i) => match i.store.spec_func(func_addr) {
                    Some(f) => r matches Ok(t) && t.params@ == f.spec_ty().params@ && t.returns@ == f.spec_ty().returns@,
                    None => r == Err::<FunctionType, DebuggerError>(DebuggerError::NoFunction(func_addr)),
                },
            },
    {
        let inst = match &self.instance {
            Some(i) => i,
            None => return Err(DebuggerError::NoInstance),
        };
        match inst.store.func(func_addr) {
            Some(f) => Ok(crate::vm::executor::copy_func_type(f.ty())),
            None => Err(DebuggerError::NoFunction(func_addr)),
        }
    }

    /// Whether a function is being run.
    pub fn is_running(&self) -> (r: bool)
        ensures
            r == (self.instance matches Some(i) && i.executor is Some),
    {
        match &self.instance {
            Some(i) => i.executor.is_some(),
            None => false,
        }
    }

    /// The names of the functions of the call frames, the outermost first.
    pub fn frame(&self) -> (r: Vec<String>)
        ensures
            match self.instance {
                Some(i) => match i.executor {
                    Some(e) => r@.len() == frames_of(e.stack@).len()
                        && forall|k: int| 0 <= k < r@.len() ==> (#[trigger] r@[k])@ == spec_func_name(i.store, frames_of(e.stack@)[k].func_addr),
                    None => r@.len() == 0,
                },
                None => r@.len() == 0,
            },
    {
        let (store, exec) = match &self.instance {
            Some(i) => match &i.executor {
                Some(e) => (&i.store, e),
                None => return Vec::new(),
            },
            None => return Vec::new(),
        };
        let addrs = exec.stack.peek_frames();
        let mut names: Vec<String> = Vec::new();
        let mut k: usize = 0;
        while k < addrs.len()
            invariant
                k <= addrs@.len(),
                addrs@ == frames_of(exec.stack@).map_values(|f: crate::vm::stack::FrameView| f.func_addr),
                names@.len() == k,
                forall|m: int| 0 <= m < k ==> (#[trigger] names@[m])@ == spec_func_name(*store, addrs@[m]),
            decreases addrs@.len() - k,
        {
            names.push(func_name(store, addrs[k]));
            k = k + 1;
        }
        names
    }

    /// The locals of the innermost frame.
    pub fn locals(&self) -> (r: Vec<Value>)
        ensures
            match self.instance {
                Some(i) => match i.executor {
                    Some(e) => r@ == spec_frame_locals(e.stack@),
                    None => r@.len() == 0,
                },
                None => r@.len() == 0,
            },
    {
        let exec = match &self.instance {
            Some(i) => match &i.executor {
                Some(e) => e,
                None => return Vec::new(),
            },
            None => return Vec::new(),
        };
        proof { crate::vm::stack::lemma_last_frame_pos_bounds(exec.stack@); }
        match exec.stack.current_frame() {
            Ok(f) => {
                let mut v: Vec<Value> = Vec::new();
                let mut k: usize = 0;
                while k < f.locals.len()
                    invariant
                        k <= f.locals@.len(),
                        v@ == f.locals@.subrange(0, k as int),
                    decreases f.locals@.len() - k,
                {
                    v.push(f.locals[k]);
                    k = k + 1;
                    assert(v@ =~= f.locals@.subrange(0, k as int));
                }
                assert(f.locals@.subrange(0, k as int) =~= f.locals@);
                v
            },
            Err(_) => Vec::new(),
        }
    }

    /// A copy of the main module's first memory; empty when it has none.
    pub fn memory(&self) -> (r: Result<Vec<u8>, DebuggerError>)
        ensures
            match self.instance {
                None => r matches Err(DebuggerError::NoInstance),
                Some(i) => match i.store.spec_memory(MemoryAddr(i.main_module_index, 0)) {
                    Some(m) => r matches Ok(v) && v@ == m.spec_data(),
                    None => r matches Ok(v) && v@.len() == 0,
                },
            },
    {
        let inst = match &self.instance {
            Some(i) => i,
            None => return Err(DebuggerError::NoInstance),
        };
        match inst.store.memory(MemoryAddr(inst.main_module_index, 0)) {
            Some(m) => {
                let data = m.raw_data();
                let mut v: Vec<u8> = Vec::new();
                let mut k: usize = 0;
                while k < data.len()
                    invariant
                        k <= data@.len(),
                        v@ == data@.subrange(0, k as int),
                    decreases data@.len() - k,
                {
                    v.push(data[k]);
                    k = k + 1;
                    assert(v@ =~= data@.subrange(0, k as int));
                }
                assert(data@.subrange(0, k as int) =~= data@);
                Ok(v)
            },
            None => Ok(Vec::new()),
        }
    }

    /// The values on the stack above the innermost frame's last label.
    pub fn stack_values(&self) -> (r: Vec<Value>)
        ensures
            match self.instance {
                Some(i) => match i.executor {
                    Some(e) => r@ == crate::vm::stack::values_of(crate::vm::stack::frame_top(e.stack@)),
                    None => r@.len() == 0,
                },
                None => r@.len() == 0,
            },
    {
        match &self.instance {
            Some(i) => match &i.executor {
                Some(e) => e.stack.peek_values(),
                None => Vec::new(),
            },
            None => Vec::new(),
        }
    }

    /// The innermost frame's module and the number of its function's arguments.
    pub fn current_frame(&self) -> (r: Option<FunctionFrame>)
        ensures
            match self.instance {
                Some(i) => match i.executor {
                    Some(e) => {
                        let p = crate::vm::stack::last_frame_pos(e.stack@);
                        if p < 0 {
                            r is None
                        } else {
                            match e.stack@[p] {
                                crate::vm::stack::Entry::Activation(f) => match i.store.spec_func(f.func_addr) {
                                    Some(func) => r == Some(FunctionFrame { module_index: f.module_index, argument_count: func.spec_ty().params@.len() as usize }),
                                    None => r is None,
                                },
                                _ => r is None,
                            }
                        }
                    },
                    None => r is None,
                },
                None => r is None,
            },
    {
        let (store, exec) = match &self.instance {
            Some(i) => match &i.executor {
                Some(e) => (&i.store, e),
                None => return None,
            },
            None => return None,
        };
        proof { crate::vm::stack::lemma_last_frame_pos_bounds(exec.stack@); }
        let f = match exec.stack.current_frame() {
            Ok(f) => f,
            Err(_) => return None,
        };
        match store.func(f.func_addr) {
            Some(func) => Some(FunctionFrame { module_index: f.module_index, argument_count: func.ty().params.len() }),
            None => None,
        }
    }

    /// The body of the function at the pc, and the index of the next instruction.
    pub fn instructions(&self) -> (r: Result<(&[Instruction], usize), DebuggerError>)
        ensures
            match self.instance {
                None => r matches Err(DebuggerError::NoInstance),
                Some(i) => match i.executor {
                    None => r matches Err(DebuggerError::NoExecutionContext),
                    Some(e) => match crate::vm::executor::spec_body(i.store, e.pc.func_addr) {
                        Some(b) => r matches Ok((insts, idx)) && insts@ == b && idx == e.pc.inst_index.0 as usize,
                        None => r is Err,
                    },
                },
            },
    {
        let inst = match &self.instance {
            Some(i) => i,
            None => return Err(DebuggerError::NoInstance),
        };
        let exec = match &inst.executor {
            Some(e) => e,
            None => return Err(DebuggerError::NoExecutionContext),
        };
        match inst.store.func(exec.pc.func_addr()) {
            Some(FunctionInstance::Defined(d)) => Ok((d.instructions(), exec.pc.inst_index().0 as usize)),
            _ => Err(DebuggerError::Trap(Trap::UndefinedFunc(exec.pc.func_addr()))),
        }
    }

    /// Adds a breakpoint.
    pub fn set_breakpoint(&mut self, breakpoint: Breakpoint)
        ensures
            match breakpoint {
                Breakpoint::Function { name } => final(self).spec_breakpoints().spec_offsets() == old(self).spec_breakpoints().spec_offsets()
                    && final(self).spec_breakpoints().spec_names() == (if old(self).spec_breakpoints().spec_names().contains(name@) {
                        old(self).spec_breakpoints().spec_names()
                    } else {
                        old(self).spec_breakpoints().spec_names().push(name@)
                    }),
                Breakpoint::Instruction { inst_offset } => final(self).spec_breakpoints().spec_names() == old(self).spec_breakpoints().spec_names()
                    && final(self).spec_breakpoints().spec_offsets() == old(self).spec_breakpoints().spec_offsets().insert(inst_offset),
            },
            final(self).instance == old(self).instance,
            final(self).spec_main_module() == old(self).spec_main_module(),
            final(self).spec_opts() == old(self).spec_opts(),
    {
        self.breakpoints.insert(breakpoint)
    }

    pub fn get_opts(&self) -> (r: DebuggerOpts)
        ensures
            r == self.spec_opts(),
    {
        self.opts
    }

    pub fn set_opts(&mut self, opts: DebuggerOpts)
        ensures
            final(self).spec_opts() == opts,
            final(self).instance == old(self).instance,
            final(self).spec_main_module() == old(self).spec_main_module(),
            final(self).spec_breakpoints() == old(self).spec_breakpoints(),
    {
        self.opts = opts
    }
}


/// After a breakpoint is set at an instruction offset, an instruction at
/// that offset hits a breakpoint, and every offset set before still does.
pub proof fn lemma_inserted_offset_hits(before: Breakpoints, after: Breakpoints, o: usize)
    requires
        after.spec_offsets() == before.spec_offsets().insert(o),
    ensures
        after.spec_offsets().contains(o),
        forall|p: usize| #[trigger] before.spec_offsets().contains(p) ==> after.spec_offsets().contains(p),
{
}

/// A function breakpoint hits the functions whose name is the breakpoint's
/// name.
pub proof fn lemma_name_breaks_itself(name: Seq<char>)
    ensures
        is_substring(name, name),
{
    let i: int = 0;
    assert(name.subrange(i, i + name.len()) =~= name);
}

/// After a function breakpoint is set under a name, that name is among the
/// breakpoints.
pub proof fn lemma_inserted_name_hits(names: Seq<Seq<char>>, name: Seq<char>)
    ensures
        (if names.contains(name) { names } else { names.push(name) }).contains(name),
{
    if !names.contains(name) {
        assert(names.push(name)[names.len() as int] == name);
    }
}

} // verus!
