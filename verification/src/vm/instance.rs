//! A store of module instances and the entry points that run them.

use vstd::prelude::*;
use crate::vm::address::{FuncAddr, ModuleIndex};
use crate::vm::executor::{invoke_func, spec_invocation, spec_resolve, Invocation, Resolved, WasmError};
use crate::vm::func::FunctionInstance;
use crate::vm::module::{DefinedModuleInstance, ExternalValue, HostExport, HostModuleInstance, ModuleInstance};
use crate::vm::store::{func_wf, module_wf, ModuleParts, Store};
use crate::vm::value::Value;

verus! {

/// The function a run starts with: the export named `func_name`, else the
/// start function, else the export `_start`; or the name that was missing.
pub open spec fn spec_entry_func(dm: DefinedModuleInstance, func_name: Option<Seq<char>>) -> Result<FuncAddr, Seq<char>> {
    match func_name {
        Some(n) => match dm.spec_exported(n) {
            Some(ExternalValue::Func(a)) => Ok(a),
            _ => Err(n),
        },
        None => match dm.spec_start_func() {
            Some(a) => Ok(a),
            None => match dm.spec_exported("_start"@) {
                Some(ExternalValue::Func(a)) => Ok(a),
                _ => Err("_start"@),
            },
        },
    }
}

/// Chooses the function a run of module `dm` starts with.
pub fn entry_func(dm: &DefinedModuleInstance, func_name: Option<String>) -> (r: Result<FuncAddr, WasmError>)
    ensures
        match spec_entry_func(*dm, match func_name { Some(n) => Some(n@), None => None }) {
            Ok(a) => r == Ok::<FuncAddr, WasmError>(a),
            Err(n) => r matches Err(WasmError::EntryFunctionNotFound(m)) && m@ == n,
        },
{
    match func_name {
        Some(name) => match dm.exported_func(name.as_str()) {
            Ok(Some(a)) => Ok(a),
            _ => Err(WasmError::EntryFunctionNotFound(name)),
        },
        None => match dm.start_func_addr() {
            Some(a) => Ok(*a),
            None => match dm.exported_func("_start") {
                Ok(Some(a)) => Ok(a),
                _ => Err(WasmError::EntryFunctionNotFound("_start".to_owned())),
            },
        },
    }
}

/// The value of the global that module `mi` provides under `field`.
pub open spec fn spec_get_global(store: Store, mi: ModuleIndex, field: Seq<char>) -> Option<Value> {
    let addr = match store.spec_module(mi) {
        Some(ModuleInstance::Defined(dm)) => match dm.spec_exported(field) {
            Some(ExternalValue::Global(a)) => Some(a),
            _ => None,
        },
        Some(ModuleInstance::Host(hm)) => match hm.spec_get(field) {
            Some(HostExport::Global(a)) => Some(a),
            _ => None,
        },
        None => None,
    };
    match addr {
        Some(a) => match store.spec_global(a) {
            Some(g) => Some(g.spec_value()),
            None => None,
        },
        None => None,
    }
}

/// Why a module could not be loaded.
#[derive(Clone, Debug)]
pub enum LoadError {
    /// The store holds as many modules as a module index can number.
    TooManyModules,
    /// The module was added, but its start function could not be started.
    FailedEntryFunction(WasmError),
}

/// The start function of a module, if it is a defined module with one.
pub open spec fn spec_start_of(m: ModuleInstance) -> Option<FuncAddr> {
    match m {
        ModuleInstance::Defined(dm) => dm.spec_start_func(),
        ModuleInstance::Host(_) => None,
    }
}

/// Module instances, and what the embedder keeps for its host functions.
pub struct WasmInstance<C> {
    pub store: Store,
    pub contexts: Vec<C>,
}

impl<C> WasmInstance<C> {
    pub open spec fn wf(&self) -> bool {
        self.store.wf()
    }

    /// An instance with no module.
    pub fn new() -> (r: Self)
        ensures
            r.wf(),
            r.store.spec_modules().len() == 0,
            r.store.spec_names().len() == 0,
            r.contexts@.len() == 0,
    {
        WasmInstance { store: Store::new(), contexts: Vec::new() }
    }

    /// Adds a host module under `name`.
    pub fn load_host_module(&mut self, name: String, module: HostModuleInstance) -> (r: Option<ModuleIndex>)
        requires
            old(self).wf(),
            module.wf(),
        ensures
            final(self).wf(),
            final(self).contexts@ == old(self).contexts@,
            match r {
                Some(idx) => idx.0 == old(self).store.spec_modules().len()
                    && final(self).store.spec_modules() == old(self).store.spec_modules().push(ModuleInstance::Host(module))
                    && final(self).store.spec_names() == old(self).store.spec_names().push((name@, idx)),
                None => old(self).store.spec_modules().len() >= u32::MAX
                    && final(self).store.spec_modules() == old(self).store.spec_modules(),
            },
    {
        self.store.load_host_module(name, module)
    }

    /// Makes module `module_index` findable by `name`.
    pub fn register_name(&mut self, name: String, module_index: ModuleIndex)
        requires
            old(self).wf(),
        ensures
            final(self).wf(),
            final(self).contexts@ == old(self).contexts@,
            final(self).store.spec_names() == old(self).store.spec_names().push((name@, module_index)),
            final(self).store.spec_modules() == old(self).store.spec_modules(),
    {
        self.store.register_name(name, module_index)
    }

    /// Keeps a context for the embedder's host functions.
    pub fn add_embed_context(&mut self, ctx: C)
        ensures
            final(self).contexts@ == old(self).contexts@.push(ctx),
            final(self).store == old(self).store,
    {
        self.contexts.push(ctx);
    }

    /// The value of the global that module `module_index` exports as `field`.
    pub fn get_global(&self, module_index: ModuleIndex, field: &str) -> (r: Option<Value>)
        requires
            self.wf(),
        ensures
            r == spec_get_global(self.store, module_index, field@),
    {
        let addr = match self.store.module(module_index) {
            Some(ModuleInstance::Defined(dm)) => match dm.exported_global(field) {
                Ok(Some(a)) => a,
                _ => return None,
            },
            Some(ModuleInstance::Host(hm)) => {
                proof { assert(crate::vm::store::module_wf(self.store.spec_modules()[module_index.0 as int])); }
                match hm.global_by_name(field) {
                    Ok(Some(a)) => a,
                    _ => return None,
                }
            },
            None => return None,
        };
        match self.store.global(addr) {
            Some(g) => Some(g.value()),
            None => None,
        }
    }

    /// Adds a module with its parts, findable by `name` where one is given,
    /// and starts its start function where it has one: the invocation is
    /// handed back for the caller to run.
    pub fn load_module(&mut self, name: Option<String>, parts: ModuleParts) -> (r: Result<(ModuleIndex, Option<Invocation>), LoadError>)
        requires
            old(self).wf(),
            forall|j: int| 0 <= j < parts.memories@.len() ==> (#[trigger] parts.memories@[j]).wf(),
            forall|j: int| 0 <= j < parts.funcs@.len() ==> func_wf(#[trigger] parts.funcs@[j]),
            module_wf(parts.module),
        ensures
            final(self).wf(),
            final(self).contexts@ == old(self).contexts@,
            old(self).store.spec_modules().len() >= u32::MAX ==> (r matches Err(LoadError::TooManyModules)
                && final(self).store.spec_modules() == old(self).store.spec_modules()
                && final(self).store.spec_names() == old(self).store.spec_names()),
            old(self).store.spec_modules().len() < u32::MAX ==> {
                let idx = ModuleIndex(old(self).store.spec_modules().len() as u32);
                &&& final(self).store.spec_modules() == old(self).store.spec_modules().push(parts.module)
                &&& final(self).store.spec_funcs() == old(self).store.spec_funcs().push(parts.funcs@)
                &&& final(self).store.spec_names() == match name {
                    Some(n) => old(self).store.spec_names().push((n@, idx)),
                    None => old(self).store.spec_names(),
                }
                &&& match spec_start_of(parts.module) {
                    None => r matches Ok((i, None)) && i == idx,
                    Some(a) => match r {
                        Ok((i, Some(inv))) => i == idx && spec_invocation(final(self).store, a, seq![], Ok(inv)),
                        Err(LoadError::FailedEntryFunction(e)) => spec_invocation(final(self).store, a, seq![], Err(e)),
                        _ => false,
                    },
                }
            },
    {
        let start = match &parts.module {
            ModuleInstance::Defined(dm) => *dm.start_func_addr(),
            ModuleInstance::Host(_) => None,
        };
        let idx = match self.store.add_module(parts) {
            Some(idx) => idx,
            None => return Err(LoadError::TooManyModules),
        };
        match name {
            Some(n) => self.store.register_name(n, idx),
            None => {},
        }
        match start {
            Some(a) => match invoke_func(a, Vec::new(), &self.store) {
                Ok(inv) => Ok((idx, Some(inv))),
                Err(e) => Err(LoadError::FailedEntryFunction(e)),
            },
            None => Ok((idx, None)),
        }
    }

    /// Starts running module `module_index`: the export `func_name`, else
    /// its start function, else its export `_start`.
    pub fn run(&mut self, module_index: ModuleIndex, func_name: Option<String>, arguments: Vec<Value>) -> (r: Result<Invocation, WasmError>)
        requires
            old(self).wf(),
            old(self).store.spec_module(module_index) matches Some(ModuleInstance::Defined(_)),
        ensures
            *final(self) == *old(self),
            match old(self).store.spec_module(module_index) {
                Some(ModuleInstance::Defined(dm)) => match spec_entry_func(dm, match func_name { Some(n) => Some(n@), None => None }) {
                    Ok(a) => spec_invocation(old(self).store, a, arguments@, r),
                    Err(n) => r matches Err(WasmError::EntryFunctionNotFound(m)) && m@ == n,
                },
                _ => false,
            },
    {
        let dm = match self.store.module(module_index) {
            Some(ModuleInstance::Defined(dm)) => dm,
            _ => return Err(WasmError::HostExecutionError),
        };
        match entry_func(dm, func_name) {
            Ok(a) => invoke_func(a, arguments, &self.store),
            Err(e) => Err(e),
        }
    }
}

/// What an import of field `field` through a name that finds the module
/// `m` resolves to: the host function of that field, or what the function
/// the module exports under that field resolves to.
pub open spec fn resolved_through(after: Store, m: Option<ModuleInstance>, name: Seq<char>, field: Seq<char>, fuel: nat) -> Option<Resolved> {
    match m {
        Some(ModuleInstance::Host(hm)) => match hm.spec_get(field) {
            Some(HostExport::Func(t)) => Some(Resolved::Host(name, field, t)),
            _ => None,
        },
        Some(ModuleInstance::Defined(dm)) => if fuel == 0 {
            None
        } else {
            match dm.spec_exported(field) {
                Some(ExternalValue::Func(a)) => spec_resolve(after, a, (fuel - 1) as nat),
                _ => None,
            }
        },
        None => None,
    }
}

/// The names after a module is loaded at index `idx`, under `loaded_name`
/// where it has one.
pub open spec fn names_after_load(names: Seq<(Seq<char>, ModuleIndex)>, loaded_name: Option<Seq<char>>, idx: ModuleIndex) -> Seq<(Seq<char>, ModuleIndex)> {
    match loaded_name {
        Some(n) => names.push((n, idx)),
        None => names,
    }
}

/// Imports go through registered names: once `name` is registered for the
/// loaded module `target`, a module loaded afterwards whose function `j` is
/// imported from `name` has that import resolved against `target`'s exports;
/// the registration itself adds and changes no module. Where the later
/// module is itself loaded under `name`, the name finds it instead, and the
/// import resolves against its own exports.
pub proof fn lemma_import_through_registered_name(
    before: Store,
    registered: Store,
    after: Store,
    name: Seq<char>,
    target: ModuleIndex,
    loaded: ModuleInstance,
    funcs: Seq<FunctionInstance>,
    loaded_name: Option<Seq<char>>,
    j: usize,
    fuel: nat,
)
    requires
        (target.0 as int) < before.spec_modules().len(),
        registered.spec_modules() == before.spec_modules(),
        registered.spec_funcs() == before.spec_funcs(),
        registered.spec_names() == before.spec_names().push((name, target)),
        registered.spec_modules().len() < u32::MAX,
        after.spec_modules() == registered.spec_modules().push(loaded),
        after.spec_funcs() == registered.spec_funcs().push(funcs),
        after.spec_names() == names_after_load(registered.spec_names(), loaded_name, ModuleIndex(registered.spec_modules().len() as u32)),
        j < funcs.len(),
        funcs[j as int] matches FunctionInstance::Host(h) && h.spec_module_name() == name,
    ensures
        after.spec_module(target) == before.spec_module(target),
        spec_resolve(after, FuncAddr(ModuleIndex(before.spec_modules().len() as u32), j), fuel)
            == resolved_through(after, if loaded_name == Some(name) { Some(loaded) } else { before.spec_module(target) },
                name, funcs[j as int]->Host_0.spec_field_name(), fuel),
{
    registered.lemma_funcs_per_module();
    after.lemma_funcs_per_module();
    let idx = ModuleIndex(registered.spec_modules().len() as u32);
    assert(after.spec_names().len() > 0);
    match loaded_name {
        Some(n) => {
            assert(after.spec_names().drop_last() == registered.spec_names());
        },
        None => {},
    }
    assert(registered.spec_names().drop_last() == before.spec_names());
    if loaded_name == Some(name) {
        assert(after.spec_module_by_name(name) == Some(idx));
        assert(after.spec_module(idx) == Some(loaded));
    } else {
        assert(after.spec_module_by_name(name) == Some(target));
    }
    assert(after.spec_func(FuncAddr(idx, j)) == Some(funcs[j as int]));
    assert(after.spec_module(target) == before.spec_module(target));
}

/// A host module exposes exactly its entries: once it is loaded under
/// `name`, a module loaded afterwards whose function `j` is imported from
/// `name` has that import resolved to the host module's function of the
/// imported field, and to nothing where it has none; the modules loaded
/// before stay as they were. Where the later module is itself loaded under
/// `name`, the name finds it instead, and the import resolves against its
/// own exports.
pub proof fn lemma_import_from_host_module(
    before: Store,
    hosted: Store,
    after: Store,
    name: Seq<char>,
    module: HostModuleInstance,
    loaded: ModuleInstance,
    funcs: Seq<FunctionInstance>,
    loaded_name: Option<Seq<char>>,
    j: usize,
    fuel: nat,
)
    requires
        hosted.spec_modules() == before.spec_modules().push(ModuleInstance::Host(module)),
        hosted.spec_names() == before.spec_names().push((name, ModuleIndex(before.spec_modules().len() as u32))),
        before.spec_modules().len() < u32::MAX,
        hosted.spec_modules().len() < u32::MAX,
        after.spec_modules() == hosted.spec_modules().push(loaded),
        after.spec_funcs() == hosted.spec_funcs().push(funcs),
        after.spec_names() == names_after_load(hosted.spec_names(), loaded_name, ModuleIndex(hosted.spec_modules().len() as u32)),
        j < funcs.len(),
        funcs[j as int] matches FunctionInstance::Host(h) && h.spec_module_name() == name,
    ensures
        forall|i: ModuleIndex| (i.0 as int) < before.spec_modules().len() ==> #[trigger] after.spec_module(i) == before.spec_module(i),
        ({
            let field = funcs[j as int]->Host_0.spec_field_name();
            spec_resolve(after, FuncAddr(ModuleIndex(hosted.spec_modules().len() as u32), j), fuel) == if loaded_name == Some(name) {
                resolved_through(after, Some(loaded), name, field, fuel)
            } else {
                match module.spec_get(field) {
                    Some(HostExport::Func(t)) => Some(Resolved::Host(name, field, t)),
                    _ => None,
                }
            }
        }),
{
    hosted.lemma_funcs_per_module();
    after.lemma_funcs_per_module();
    let host = ModuleIndex(before.spec_modules().len() as u32);
    let idx = ModuleIndex(hosted.spec_modules().len() as u32);
    match loaded_name {
        Some(n) => {
            assert(after.spec_names().drop_last() == hosted.spec_names());
        },
        None => {},
    }
    assert(hosted.spec_names().drop_last() == before.spec_names());
    if loaded_name == Some(name) {
        assert(after.spec_module_by_name(name) == Some(idx));
        assert(after.spec_module(idx) == Some(loaded));
    } else {
        assert(after.spec_module_by_name(name) == Some(host));
    }
    assert(after.spec_module(host) == Some(ModuleInstance::Host(module)));
    assert(after.spec_func(FuncAddr(idx, j)) == Some(funcs[j as int]));
}

} // verus!
