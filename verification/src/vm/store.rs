//! The store: every module instance and the functions, globals, memories
//! and tables that belong to each.

use vstd::prelude::*;
use crate::vm::address::{FuncAddr, GlobalAddr, MemoryAddr, ModuleIndex, TableAddr};
use crate::vm::func::FunctionInstance;
use crate::vm::global::DefinedGlobalInstance;
use crate::vm::memory::{self, MemoryInstance};
use crate::vm::module::{HostModuleInstance, ModuleInstance};
use crate::vm::table::DefinedTableInstance;
use crate::vm::utils::str_eq;
use crate::vm::value::Value;

verus! {

/// The parts of one module instance.
pub struct ModuleParts {
    pub module: ModuleInstance,
    pub funcs: Vec<FunctionInstance>,
    pub globals: Vec<DefinedGlobalInstance>,
    pub memories: Vec<MemoryInstance>,
    pub tables: Vec<DefinedTableInstance>,
}

/// All module instances, indexed by `ModuleIndex`.
pub struct Store {
    modules: Vec<ModuleParts>,
    names: Vec<(String, ModuleIndex)>,
}

/// The element at `j` of the `i`th sequence, if both exist.
pub open spec fn nested_get<T>(s: Seq<Seq<T>>, i: int, j: int) -> Option<T> {
    if 0 <= i < s.len() && 0 <= j < s[i].len() {
        Some(s[i][j])
    } else {
        None
    }
}

/// A function body short enough to index with `u32`.
pub open spec fn func_wf(f: FunctionInstance) -> bool {
    f matches FunctionInstance::Defined(d) ==> d.spec_instructions().len() < u32::MAX
}

/// A host module has distinct names.
pub open spec fn module_wf(m: ModuleInstance) -> bool {
    m matches ModuleInstance::Host(h) ==> h.wf()
}

/// The module registered last under `name`.
pub open spec fn last_named(names: Seq<(Seq<char>, ModuleIndex)>, name: Seq<char>) -> Option<ModuleIndex>
    decreases names.len(),
{
    if names.len() == 0 {
        None
    } else if names.last().0 == name {
        Some(names.last().1)
    } else {
        last_named(names.drop_last(), name)
    }
}

impl Store {
    pub closed spec fn spec_modules(&self) -> Seq<ModuleInstance> {
        self.modules@.map_values(|p: ModuleParts| p.module)
    }

    pub closed spec fn spec_funcs(&self) -> Seq<Seq<FunctionInstance>> {
        self.modules@.map_values(|p: ModuleParts| p.funcs@)
    }

    pub closed spec fn spec_globals(&self) -> Seq<Seq<DefinedGlobalInstance>> {
        self.modules@.map_values(|p: ModuleParts| p.globals@)
    }

    pub closed spec fn spec_memories(&self) -> Seq<Seq<MemoryInstance>> {
        self.modules@.map_values(|p: ModuleParts| p.memories@)
    }

    pub closed spec fn spec_tables(&self) -> Seq<Seq<DefinedTableInstance>> {
        self.modules@.map_values(|p: ModuleParts| p.tables@)
    }

    pub closed spec fn spec_names(&self) -> Seq<(Seq<char>, ModuleIndex)> {
        self.names@.map_values(|p: (String, ModuleIndex)| (p.0@, p.1))
    }

    /// Each module has its lists of functions, globals, memories and tables:
    /// there are as many of each as modules.
    pub proof fn lemma_funcs_per_module(&self)
        ensures
            self.spec_funcs().len() == self.spec_modules().len(),
            self.spec_globals().len() == self.spec_modules().len(),
            self.spec_memories().len() == self.spec_modules().len(),
            self.spec_tables().len() == self.spec_modules().len(),
    {
    }

    pub open spec fn spec_func(&self, addr: FuncAddr) -> Option<FunctionInstance> {
        nested_get(self.spec_funcs(), addr.0.0 as int, addr.1 as int)
    }

    pub open spec fn spec_global(&self, addr: GlobalAddr) -> Option<DefinedGlobalInstance> {
        nested_get(self.spec_globals(), addr.0.0 as int, addr.1 as int)
    }

    pub open spec fn spec_memory(&self, addr: MemoryAddr) -> Option<MemoryInstance> {
        nested_get(self.spec_memories(), addr.0.0 as int, addr.1 as int)
    }

    pub open spec fn spec_table(&self, addr: TableAddr) -> Option<DefinedTableInstance> {
        nested_get(self.spec_tables(), addr.0.0 as int, addr.1 as int)
    }

    pub open spec fn spec_module(&self, index: ModuleIndex) -> Option<ModuleInstance> {
        if (index.0 as int) < self.spec_modules().len() {
            Some(self.spec_modules()[index.0 as int])
        } else {
            None
        }
    }

    /// Every memory is whole pages, every function body shorter than
    /// `u32::MAX` instructions, and every host module has distinct names.
    pub open spec fn wf(&self) -> bool {
        &&& forall|i: int, j: int| 0 <= i < self.spec_memories().len() && 0 <= j < self.spec_memories()[i].len()
            ==> (#[trigger] self.spec_memories()[i][j]).wf()
        &&& forall|i: int, j: int| 0 <= i < self.spec_funcs().len() && 0 <= j < self.spec_funcs()[i].len()
            ==> func_wf(#[trigger] self.spec_funcs()[i][j])
        &&& forall|i: int| 0 <= i < self.spec_modules().len()
            ==> module_wf(#[trigger] self.spec_modules()[i])
    }

    /// The empty store.
    pub fn new() -> (s: Self)
        ensures
            s.wf(),
            s.spec_modules().len() == 0,
            s.spec_names().len() == 0,
    {
        let s = Store { modules: Vec::new(), names: Vec::new() };
        assert(s.spec_memories() =~= Seq::<Seq<MemoryInstance>>::empty());
        s
    }

    /// The number of module instances.
    pub fn module_count(&self) -> (n: usize)
        ensures
            n == self.spec_modules().len(),
    {
        self.modules.len()
    }

    /// Adds a module instance with its parts; returns its index.
    pub fn add_module(&mut self, parts: ModuleParts) -> (r: Option<ModuleIndex>)
        requires
            old(self).wf(),
            forall|j: int| 0 <= j < parts.memories@.len() ==> (#[trigger] parts.memories@[j]).wf(),
            forall|j: int| 0 <= j < parts.funcs@.len() ==> func_wf(#[trigger] parts.funcs@[j]),
            module_wf(parts.module),
        ensures
            final(self).wf(),
            final(self).spec_names() == old(self).spec_names(),
            match r {
                Some(idx) => idx.0 == old(self).spec_modules().len() && old(self).spec_modules().len() < u32::MAX
                    && final(self).spec_modules() == old(self).spec_modules().push(parts.module)
                    && final(self).spec_funcs() == old(self).spec_funcs().push(parts.funcs@)
                    && final(self).spec_globals() == old(self).spec_globals().push(parts.globals@)
                    && final(self).spec_memories() == old(self).spec_memories().push(parts.memories@)
                    && final(self).spec_tables() == old(self).spec_tables().push(parts.tables@),
                None => old(self).spec_modules().len() >= u32::MAX
                    && final(self).spec_modules() == old(self).spec_modules()
                    && final(self).spec_funcs() == old(self).spec_funcs()
                    && final(self).spec_globals() == old(self).spec_globals()
                    && final(self).spec_memories() == old(self).spec_memories()
                    && final(self).spec_tables() == old(self).spec_tables(),
            },
    {
        let n = self.modules.len();
        if n >= u32::MAX as usize {
            return None;
        }
        let ghost mem = parts.memories@;
        self.modules.push(parts);
        proof {
            assert(self.spec_modules() =~= old(self).spec_modules().push(self.modules@[n as int].module));
            assert(self.spec_funcs() =~= old(self).spec_funcs().push(self.modules@[n as int].funcs@));
            assert(self.spec_globals() =~= old(self).spec_globals().push(self.modules@[n as int].globals@));
            assert(self.spec_memories() =~= old(self).spec_memories().push(mem));
            assert(self.spec_tables() =~= old(self).spec_tables().push(self.modules@[n as int].tables@));
            assert(self.spec_names() =~= old(self).spec_names());
            assert forall|i: int, j: int| 0 <= i < self.spec_memories().len() && 0 <= j < self.spec_memories()[i].len()
                implies (#[trigger] self.spec_memories()[i][j]).wf() by {
                if i < n {
                    assert(self.spec_memories()[i] == old(self).spec_memories()[i]);
                }
            }
            assert forall|i: int, j: int| 0 <= i < self.spec_funcs().len() && 0 <= j < self.spec_funcs()[i].len()
                implies func_wf(#[trigger] self.spec_funcs()[i][j]) by {
                if i < n {
                    assert(self.spec_funcs()[i] == old(self).spec_funcs()[i]);
                }
            }
            assert forall|i: int| 0 <= i < self.spec_modules().len()
                implies module_wf(#[trigger] self.spec_modules()[i]) by {
                if i < n {
                    assert(self.spec_modules()[i] == old(self).spec_modules()[i]);
                }
            }
        }
        Some(ModuleIndex(n as u32))
    }

    /// Adds a host module under a name; returns its index.
    pub fn load_host_module(&mut self, name: String, module: HostModuleInstance) -> (r: Option<ModuleIndex>)
        requires
            old(self).wf(),
            module.wf(),
        ensures
            final(self).wf(),
            match r {
                Some(idx) => idx.0 == old(self).spec_modules().len()
                    && final(self).spec_modules() == old(self).spec_modules().push(ModuleInstance::Host(module))
                    && final(self).spec_names() == old(self).spec_names().push((name@, idx)),
                None => old(self).spec_modules().len() >= u32::MAX
                    && final(self).spec_modules() == old(self).spec_modules()
                    && final(self).spec_names() == old(self).spec_names(),
            },
    {
        let parts = ModuleParts {
            module: ModuleInstance::Host(module),
            funcs: Vec::new(),
            globals: Vec::new(),
            memories: Vec::new(),
            tables: Vec::new(),
        };
        match self.add_module(parts) {
            Some(idx) => {
                self.register_name(name, idx);
                Some(idx)
            },
            None => None,
        }
    }

    /// Makes a module findable by a name.
    pub fn register_name(&mut self, name: String, module_index: ModuleIndex)
        ensures
            final(self).spec_names() == old(self).spec_names().push((name@, module_index)),
            final(self).spec_modules() == old(self).spec_modules(),
            final(self).spec_funcs() == old(self).spec_funcs(),
            final(self).spec_globals() == old(self).spec_globals(),
            final(self).spec_memories() == old(self).spec_memories(),
            final(self).spec_tables() == old(self).spec_tables(),
            final(self).wf() == old(self).wf(),
    {
        self.names.push((name, module_index));
        assert(self.spec_names() =~= old(self).spec_names().push((name@, module_index)));
        assert(self.spec_memories() =~= old(self).spec_memories());
    }

    /// The module registered last under a name.
    pub fn module_index_by_name(&self, name: &str) -> (r: Option<ModuleIndex>)
        ensures
            r == last_named(self.spec_names(), name@),
    {
        let mut i: usize = self.names.len();
        assert(self.spec_names().subrange(0, i as int) =~= self.spec_names());
        while i > 0
            invariant
                i <= self.names@.len(),
                last_named(self.spec_names(), name@) == last_named(self.spec_names().subrange(0, i as int), name@),
            decreases i,
        {
            assert(self.spec_names().subrange(0, i as int).drop_last() =~= self.spec_names().subrange(0, i - 1));
            if str_eq(self.names[i - 1].0.as_str(), name) {
                return Some(self.names[i - 1].1);
            }
            i = i - 1;
        }
        None
    }

    /// The module registered last under a name.
    pub open spec fn spec_module_by_name(&self, name: Seq<char>) -> Option<ModuleIndex> {
        last_named(self.spec_names(), name)
    }

    /// A module instance.
    pub fn module(&self, index: ModuleIndex) -> (r: Option<&ModuleInstance>)
        ensures
            match self.spec_module(index) {
                Some(m) => r == Some(&m),
                None => r is None,
            },
    {
        let i = index.0 as usize;
        if i < self.modules.len() {
            Some(&self.modules[i].module)
        } else {
            None
        }
    }

    /// A function instance.
    pub fn func(&self, addr: FuncAddr) -> (r: Option<&FunctionInstance>)
        ensures
            match self.spec_func(addr) {
                Some(f) => r == Some(&f),
                None => r is None,
            },
    {
        let i = addr.0.0 as usize;
        if i < self.modules.len() && addr.1 < self.modules[i].funcs.len() {
            Some(&self.modules[i].funcs[addr.1])
        } else {
            None
        }
    }

    /// A global instance.
    pub fn global(&self, addr: GlobalAddr) -> (r: Option<&DefinedGlobalInstance>)
        ensures
            match self.spec_global(addr) {
                Some(g) => r == Some(&g),
                None => r is None,
            },
    {
        let i = addr.0.0 as usize;
        if i < self.modules.len() && addr.1 < self.modules[i].globals.len() {
            Some(&self.modules[i].globals[addr.1])
        } else {
            None
        }
    }

    /// A memory instance.
    pub fn memory(&self, addr: MemoryAddr) -> (r: Option<&MemoryInstance>)
        ensures
            match self.spec_memory(addr) {
                Some(m) => r == Some(&m),
                None => r is None,
            },
    {
        let i = addr.0.0 as usize;
        if i < self.modules.len() && addr.1 < self.modules[i].memories.len() {
            Some(&self.modules[i].memories[addr.1])
        } else {
            None
        }
    }

    /// The number of memories of a module.
    pub fn memory_count(&self, index: ModuleIndex) -> (n: usize)
        ensures
            n == (if (index.0 as int) < self.spec_memories().len() {
                self.spec_memories()[index.0 as int].len()
            } else {
                0
            }),
    {
        let i = index.0 as usize;
        if i < self.modules.len() {
            self.modules[i].memories.len()
        } else {
            0
        }
    }

    /// A table instance.
    pub fn table(&self, addr: TableAddr) -> (r: Option<&DefinedTableInstance>)
        ensures
            match self.spec_table(addr) {
                Some(t) => r == Some(&t),
                None => r is None,
            },
    {
        let i = addr.0.0 as usize;
        if i < self.modules.len() && addr.1 < self.modules[i].tables.len() {
            Some(&self.modules[i].tables[addr.1])
        } else {
            None
        }
    }

    /// Sets the value of a mutable global that exists.
    pub fn set_global(&mut self, addr: GlobalAddr, value: Value)
        requires
            old(self).spec_global(addr) matches Some(g) && g.spec_ty().mutable,
        ensures
            final(self).spec_globals() == old(self).spec_globals().update(
                addr.0.0 as int,
                old(self).spec_globals()[addr.0.0 as int].update(addr.1 as int,
                    old(self).spec_global(addr)->0.with_value(value))),
            final(self).spec_modules() == old(self).spec_modules(),
            final(self).spec_funcs() == old(self).spec_funcs(),
            final(self).spec_memories() == old(self).spec_memories(),
            final(self).spec_tables() == old(self).spec_tables(),
            final(self).spec_names() == old(self).spec_names(),
            final(self).wf() == old(self).wf(),
    {
        let i = addr.0.0 as usize;
        let mut parts = self.take_parts(i);
        let mut g = parts.globals[addr.1];
        g.set_value(value);
        parts.globals.set(addr.1, g);
        self.put_parts(i, parts);
        proof {
            assert(self.spec_globals() =~= old(self).spec_globals().update(
                addr.0.0 as int,
                old(self).spec_globals()[addr.0.0 as int].update(addr.1 as int, g)));
            assert(self.spec_modules() =~= old(self).spec_modules());
            assert(self.spec_funcs() =~= old(self).spec_funcs());
            assert(self.spec_memories() =~= old(self).spec_memories());
            assert(self.spec_tables() =~= old(self).spec_tables());
        }
    }

    /// Writes bytes into a memory that exists.
    pub fn memory_store(&mut self, addr: MemoryAddr, offset: usize, bytes: &[u8]) -> (r: Result<(), memory::Error>)
        requires
            old(self).spec_memory(addr) is Some,
            old(self).wf(),
        ensures
            final(self).wf(),
            final(self).spec_memory(addr) matches Some(m)
                && memory::store_effect(old(self).spec_memory(addr)->0, m, offset, bytes@, r),
            forall|a: MemoryAddr| a != addr ==> #[trigger] final(self).spec_memory(a) == old(self).spec_memory(a),
            final(self).spec_memories().len() == old(self).spec_memories().len(),
            forall|i: int| 0 <= i < old(self).spec_memories().len() ==>
                #[trigger] final(self).spec_memories()[i].len() == old(self).spec_memories()[i].len(),
            final(self).spec_modules() == old(self).spec_modules(),
            final(self).spec_funcs() == old(self).spec_funcs(),
            final(self).spec_globals() == old(self).spec_globals(),
            final(self).spec_tables() == old(self).spec_tables(),
            final(self).spec_names() == old(self).spec_names(),
    {
        let i = addr.0.0 as usize;
        let mut parts = self.take_parts(i);
        let ghost taken = parts.memories@;
        let mut m = MemoryInstance::new(0, None);
        parts.memories.set_and_swap(addr.1, &mut m);
        let ghost before = m;
        proof { assert(before == old(self).spec_memory(addr)->0); }
        let r = m.store(offset, bytes);
        parts.memories.set_and_swap(addr.1, &mut m);
        let ghost after = parts.memories@[addr.1 as int];
        assert(parts.memories@ =~= taken.update(addr.1 as int, after));
        self.put_parts(i, parts);
        proof {
            assert(self.spec_memories() =~= old(self).spec_memories().update(
                addr.0.0 as int,
                old(self).spec_memories()[addr.0.0 as int].update(addr.1 as int, after)));
            assert(self.spec_modules() =~= old(self).spec_modules());
            assert(self.spec_funcs() =~= old(self).spec_funcs());
            assert(self.spec_globals() =~= old(self).spec_globals());
            assert(self.spec_tables() =~= old(self).spec_tables());
            assert forall|ii: int, j: int| 0 <= ii < self.spec_memories().len() && 0 <= j < self.spec_memories()[ii].len()
                implies (#[trigger] self.spec_memories()[ii][j]).wf() by {
                if ii != addr.0.0 as int || j != addr.1 as int {
                    assert(self.spec_memories()[ii][j] == old(self).spec_memories()[ii][j]);
                }
            }
        }
        r
    }

    /// Grows a memory that exists.
    pub fn memory_grow(&mut self, addr: MemoryAddr, pages: usize) -> (r: Result<(), memory::Error>)
        requires
            old(self).spec_memory(addr) is Some,
            old(self).wf(),
        ensures
            final(self).wf(),
            final(self).spec_memory(addr) matches Some(m)
                && memory::grow_effect(old(self).spec_memory(addr)->0, m, pages, r),
            forall|a: MemoryAddr| a != addr ==> #[trigger] final(self).spec_memory(a) == old(self).spec_memory(a),
            final(self).spec_memories().len() == old(self).spec_memories().len(),
            forall|i: int| 0 <= i < old(self).spec_memories().len() ==>
                #[trigger] final(self).spec_memories()[i].len() == old(self).spec_memories()[i].len(),
            final(self).spec_modules() == old(self).spec_modules(),
            final(self).spec_funcs() == old(self).spec_funcs(),
            final(self).spec_globals() == old(self).spec_globals(),
            final(self).spec_tables() == old(self).spec_tables(),
            final(self).spec_names() == old(self).spec_names(),
    {
        let i = addr.0.0 as usize;
        let mut parts = self.take_parts(i);
        let ghost taken = parts.memories@;
        let mut m = MemoryInstance::new(0, None);
        parts.memories.set_and_swap(addr.1, &mut m);
        proof {
            assert(m == old(self).spec_memory(addr)->0);
            assert(old(self).spec_memories()[addr.0.0 as int][addr.1 as int].wf());
        }
        let r = m.grow(pages);
        parts.memories.set_and_swap(addr.1, &mut m);
        let ghost after = parts.memories@[addr.1 as int];
        assert(parts.memories@ =~= taken.update(addr.1 as int, after));
        self.put_parts(i, parts);
        proof {
            assert(self.spec_memories() =~= old(self).spec_memories().update(
                addr.0.0 as int,
                old(self).spec_memories()[addr.0.0 as int].update(addr.1 as int, after)));
            assert(self.spec_modules() =~= old(self).spec_modules());
            assert(self.spec_funcs() =~= old(self).spec_funcs());
            assert(self.spec_globals() =~= old(self).spec_globals());
            assert(self.spec_tables() =~= old(self).spec_tables());
            assert forall|ii: int, j: int| 0 <= ii < self.spec_memories().len() && 0 <= j < self.spec_memories()[ii].len()
                implies (#[trigger] self.spec_memories()[ii][j]).wf() by {
                if ii != addr.0.0 as int || j != addr.1 as int {
                    assert(self.spec_memories()[ii][j] == old(self).spec_memories()[ii][j]);
                }
            }
        }
        r
    }

    fn take_parts(&mut self, i: usize) -> (p: ModuleParts)
        requires
            i < old(self).modules@.len(),
        ensures
            p == old(self).modules@[i as int],
            final(self).modules@.len() == old(self).modules@.len(),
            final(self).names == old(self).names,
            forall|k: int| 0 <= k < old(self).modules@.len() && k != i ==> final(self).modules@[k] == old(self).modules@[k],
    {
        let mut p = ModuleParts {
            module: ModuleInstance::Host(HostModuleInstance::new(Vec::new())),
            funcs: Vec::new(),
            globals: Vec::new(),
            memories: Vec::new(),
            tables: Vec::new(),
        };
        self.modules.set_and_swap(i, &mut p);
        p
    }

    fn put_parts(&mut self, i: usize, p: ModuleParts)
        requires
            i < old(self).modules@.len(),
        ensures
            final(self).modules@ == old(self).modules@.update(i as int, p),
            final(self).names == old(self).names,
    {
        let mut p = p;
        self.modules.set_and_swap(i, &mut p);
    }
}

/// Registering a module under a name makes that name find it, and leaves
/// every other name finding what it found before.
pub proof fn lemma_registered_name_finds(before: Store, after: Store, name: Seq<char>, index: ModuleIndex)
    requires
        after.spec_names() == before.spec_names().push((name, index)),
    ensures
        after.spec_module_by_name(name) == Some(index),
        forall|other: Seq<char>| other != name ==> #[trigger] after.spec_module_by_name(other) == before.spec_module_by_name(other),
{
    assert(after.spec_names().drop_last() =~= before.spec_names());
}

/// Loading a host module under a name: the name finds the new module, which
/// is that host module; the modules loaded before stay as they were, and
/// every other name finds what it found before.
pub proof fn lemma_host_module_loaded(before: Store, after: Store, name: Seq<char>, module: HostModuleInstance, index: ModuleIndex)
    requires
        index.0 == before.spec_modules().len(),
        after.spec_modules() == before.spec_modules().push(ModuleInstance::Host(module)),
        after.spec_names() == before.spec_names().push((name, index)),
    ensures
        after.spec_module_by_name(name) == Some(index),
        after.spec_module(index) == Some(ModuleInstance::Host(module)),
        forall|i: ModuleIndex| (i.0 as int) < before.spec_modules().len() ==> #[trigger] after.spec_module(i) == before.spec_module(i),
        forall|other: Seq<char>| other != name ==> #[trigger] after.spec_module_by_name(other) == before.spec_module_by_name(other),
{
    lemma_registered_name_finds(before, after, name, index);
}

} // verus!
