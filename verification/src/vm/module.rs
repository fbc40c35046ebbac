//! Module instances and their exports.

use vstd::prelude::*;
use crate::vm::address::{FuncAddr, GlobalAddr, MemoryAddr, ModuleIndex, TableAddr};
use crate::vm::func::FunctionType;
use crate::vm::utils::str_eq;
use vstd::string::StringExecFns;

verus! {

/// What an export entry of a module refers to, by index in its index space.
#[derive(Clone, Copy, Debug, PartialEq, Eq, Structural)]
pub enum Internal {
    Function(u32),
    Global(u32),
    Memory(u32),
    Table(u32),
}

/// An export entry as the module's export section gives it.
#[derive(Clone, Debug)]
pub struct ExportEntry {
    pub field: String,
    pub internal: Internal,
}

/// What an export refers to, by address.
#[derive(Clone, Copy, Debug, PartialEq, Eq, Structural)]
pub enum ExternalValue {
    Func(FuncAddr),
    Global(GlobalAddr),
    Memory(MemoryAddr),
    Table(TableAddr),
}

impl ExternalValue {
    pub open spec fn spec_ty(self) -> Seq<char> {
        match self {
            ExternalValue::Func(_) => "function"@,
            ExternalValue::Global(_) => "global"@,
            ExternalValue::Memory(_) => "memory"@,
            ExternalValue::Table(_) => "table"@,
        }
    }

    /// The kind of the export, as a word.
    pub fn ty(&self) -> (r: &'static str)
        ensures
            r@ == self.spec_ty(),
    {
        match self {
            ExternalValue::Func(_) => "function",
            ExternalValue::Global(_) => "global",
            ExternalValue::Memory(_) => "memory",
            ExternalValue::Table(_) => "table",
        }
    }
}

/// The address an export entry of a module refers to.
pub open spec fn spec_external_value(internal: Internal, module_index: ModuleIndex) -> ExternalValue {
    match internal {
        Internal::Function(i) => ExternalValue::Func(FuncAddr(module_index, i as usize)),
        Internal::Global(i) => ExternalValue::Global(GlobalAddr(module_index, i as usize)),
        Internal::Memory(i) => ExternalValue::Memory(MemoryAddr(module_index, i as usize)),
        Internal::Table(i) => ExternalValue::Table(TableAddr(module_index, i as usize)),
    }
}

/// A named export of a module instance.
pub struct ExportInstance {
    name: String,
    value: ExternalValue,
}

impl ExportInstance {
    pub closed spec fn spec_name(&self) -> Seq<char> {
        self.name@
    }

    pub closed spec fn spec_value(&self) -> ExternalValue {
        self.value
    }

    pub fn name(&self) -> (r: &String)
        ensures
            r@ == self.spec_name(),
    {
        &self.name
    }

    pub fn value(&self) -> (r: &ExternalValue)
        ensures
            *r == self.spec_value(),
    {
        &self.value
    }

    /// The export of a module's export entry, addressed within that module.
    pub fn new_from_parity_entry(entry: ExportEntry, module_index: ModuleIndex) -> (e: Self)
        ensures
            e.spec_name() == entry.field@,
            e.spec_value() == spec_external_value(entry.internal, module_index),
    {
        let value = match entry.internal {
            Internal::Function(i) => ExternalValue::Func(FuncAddr(module_index, i as usize)),
            Internal::Global(i) => ExternalValue::Global(GlobalAddr(module_index, i as usize)),
            Internal::Memory(i) => ExternalValue::Memory(MemoryAddr(module_index, i as usize)),
            Internal::Table(i) => ExternalValue::Table(TableAddr(module_index, i as usize)),
        };
        ExportInstance { name: entry.field, value }
    }
}

/// Errors of typed export lookups.
#[derive(Clone, Debug)]
pub enum DefinedModuleError {
    /// The kind asked for and the kind found.
    TypeMismatch(&'static str, String),
}

impl DefinedModuleError {
    /// The text the error is shown as.
    pub open spec fn spec_message(&self) -> Seq<char> {
        match self {
            DefinedModuleError::TypeMismatch(expected, actual) =>
                "incompatible import type, expected "@ + expected@ + " but actual "@ + actual@,
        }
    }

    pub fn message(&self) -> (r: String)
        ensures
            r@ == self.spec_message(),
    {
        let mut s = String::new();
        match self {
            DefinedModuleError::TypeMismatch(expected, actual) => {
                s.append("incompatible import type, expected ");
                s.append(expected);
                s.append(" but actual ");
                s.append(actual.as_str());
            },
        }
        proof {
            reveal_strlit("incompatible import type, expected ");
            reveal_strlit(" but actual ");
        }
        s
    }
}

/// The position of the first export named `name`, if any.
pub open spec fn first_export_named(names: Seq<Seq<char>>, name: Seq<char>) -> Option<int>
    decreases names.len(),
{
    if names.len() == 0 {
        None
    } else {
        match first_export_named(names.drop_last(), name) {
            Some(i) => Some(i),
            None => if names.last() == name { Some(names.len() - 1) } else { None },
        }
    }
}

proof fn lemma_first_export_named(names: Seq<Seq<char>>, name: Seq<char>)
    ensures
        match first_export_named(names, name) {
            Some(i) => 0 <= i < names.len() && names[i] == name
                && forall|j: int| 0 <= j < i ==> names[j] != name,
            None => forall|j: int| 0 <= j < names.len() ==> names[j] != name,
        },
    decreases names.len(),
{
    if names.len() > 0 {
        let t = names.drop_last();
        lemma_first_export_named(t, name);
        assert forall|j: int| 0 <= j < t.len() implies names[j] == t[j] by {}
    }
}

/// A module defined by a WebAssembly binary, as far as the interpreter needs it.
pub struct DefinedModuleInstance {
    types: Vec<FunctionType>,
    exports: Vec<ExportInstance>,
    start_func: Option<FuncAddr>,
}

impl DefinedModuleInstance {
    pub closed spec fn spec_types(&self) -> Seq<FunctionType> {
        self.types@
    }

    pub closed spec fn spec_start_func(&self) -> Option<FuncAddr> {
        self.start_func
    }

    pub closed spec fn spec_exports(&self) -> Seq<ExportInstance> {
        self.exports@
    }

    pub open spec fn export_names(&self) -> Seq<Seq<char>> {
        self.spec_exports().map_values(|e: ExportInstance| e.spec_name())
    }

    /// The exports, in the order of the export section.
    pub fn exports(&self) -> (r: &[ExportInstance])
        ensures
            r@ == self.spec_exports(),
    {
        self.exports.as_slice()
    }

    /// The export that a lookup by name finds: the first one of that name.
    pub open spec fn spec_exported(&self, name: Seq<char>) -> Option<ExternalValue> {
        match first_export_named(self.export_names(), name) {
            Some(i) => Some(self.spec_exports()[i].spec_value()),
            None => None,
        }
    }

    /// The instance of a module whose export section holds `entries` and
    /// whose start section names `start`.
    pub fn new_from_parity_module(
        entries: Vec<ExportEntry>,
        start: Option<u32>,
        module_index: ModuleIndex,
        types: Vec<FunctionType>,
    ) -> (m: Self)
        ensures
            m.spec_exports().len() == entries@.len(),
            forall|i: int| 0 <= i < entries@.len() ==> #[trigger] m.spec_exports()[i].spec_name() == entries@[i].field@
                && m.spec_exports()[i].spec_value() == spec_external_value(entries@[i].internal, module_index),
            m.spec_start_func() == (match start {
                Some(s) => Some(FuncAddr(module_index, s as usize)),
                None => None::<FuncAddr>,
            }),
            m.spec_types() == types@,
    {
        let mut exports: Vec<ExportInstance> = Vec::new();
        let mut rest = entries;
        let ghost all = rest@;
        let mut reversed: Vec<ExportEntry> = Vec::new();
        while rest.len() > 0
            invariant
                reversed@.len() + rest@.len() == all.len(),
                rest@ == all.subrange(0, rest@.len() as int),
                forall|k: int| 0 <= k < reversed@.len() ==> #[trigger] reversed@[k] == all[all.len() - 1 - k],
            decreases rest@.len(),
        {
            let e = rest.pop().unwrap();
            reversed.push(e);
        }
        while reversed.len() > 0
            invariant
                exports@.len() + reversed@.len() == all.len(),
                forall|k: int| 0 <= k < reversed@.len() ==> #[trigger] reversed@[k] == all[all.len() - 1 - k],
                forall|i: int| 0 <= i < exports@.len() ==> #[trigger] exports@[i].spec_name() == all[i].field@
                    && exports@[i].spec_value() == spec_external_value(all[i].internal, module_index),
            decreases reversed@.len(),
        {
            let e = reversed.pop().unwrap();
            exports.push(ExportInstance::new_from_parity_entry(e, module_index));
        }
        let start_func = match start {
            Some(s) => Some(FuncAddr(module_index, s as usize)),
            None => None,
        };
        DefinedModuleInstance { types, exports, start_func }
    }

    /// The first export named `name`.
    pub fn exported_by_name(&self, name: &str) -> (r: Option<&ExportInstance>)
        ensures
            match first_export_named(self.export_names(), name@) {
                Some(i) => r == Some(&self.spec_exports()[i]),
                None => r is None,
            },
    {
        let mut i: usize = 0;
        while i < self.exports.len()
            invariant
                i <= self.exports@.len(),
                forall|j: int| 0 <= j < i ==> self.exports@[j].spec_name() != name@,
            decreases self.exports@.len() - i,
        {
            if str_eq(self.exports[i].name().as_str(), name) {
                proof { self.lemma_first_is(i as int, name@); }
                return Some(&self.exports[i]);
            }
            i = i + 1;
        }
        proof { lemma_first_export_named(self.export_names(), name@); }
        None
    }

    proof fn lemma_first_is(&self, i: int, name: Seq<char>)
        requires
            0 <= i < self.exports@.len(),
            self.exports@[i].spec_name() == name,
            forall|j: int| 0 <= j < i ==> self.exports@[j].spec_name() != name,
        ensures
            first_export_named(self.export_names(), name) == Some(i),
    {
        lemma_first_export_named(self.export_names(), name);
        match first_export_named(self.export_names(), name) {
            Some(k) => {
                assert(self.export_names()[k] == self.exports@[k].spec_name());
                assert(self.export_names()[i] == self.exports@[i].spec_name());
            },
            None => {
                assert(self.export_names()[i] == self.exports@[i].spec_name());
            },
        }
    }

    /// The global exported under `name`; an error when that export is of another kind.
    pub fn exported_global(&self, name: &str) -> (r: Result<Option<GlobalAddr>, DefinedModuleError>)
        ensures
            match self.spec_exported(name@) {
                None => r == Ok::<Option<GlobalAddr>, DefinedModuleError>(None),
                Some(ExternalValue::Global(a)) => r == Ok::<Option<GlobalAddr>, DefinedModuleError>(Some(a)),
                Some(v) => r matches Err(DefinedModuleError::TypeMismatch(exp, act))
                    && exp@ == "global"@ && act@ == v.spec_ty(),
            },
    {
        match self.exported_by_name(name) {
            Some(e) => match e.value() {
                ExternalValue::Global(addr) => Ok(Some(*addr)),
                _ => Err(DefinedModuleError::TypeMismatch("global", e.value().ty().to_owned())),
            },
            None => Ok(None),
        }
    }

    /// The function exported under `name`; an error when that export is of another kind.
    pub fn exported_func(&self, name: &str) -> (r: Result<Option<FuncAddr>, DefinedModuleError>)
        ensures
            match self.spec_exported(name@) {
                None => r == Ok::<Option<FuncAddr>, DefinedModuleError>(None),
                Some(ExternalValue::Func(a)) => r == Ok::<Option<FuncAddr>, DefinedModuleError>(Some(a)),
                Some(v) => r matches Err(DefinedModuleError::TypeMismatch(exp, act))
                    && exp@ == "function"@ && act@ == v.spec_ty(),
            },
    {
        match self.exported_by_name(name) {
            Some(e) => match e.value() {
                ExternalValue::Func(addr) => Ok(Some(*addr)),
                _ => Err(DefinedModuleError::TypeMismatch("function", e.value().ty().to_owned())),
            },
            None => Ok(None),
        }
    }

    /// The table exported under `name`; an error when that export is of another kind.
    pub fn exported_table(&self, name: &str) -> (r: Result<Option<TableAddr>, DefinedModuleError>)
        ensures
            match self.spec_exported(name@) {
                None => r == Ok::<Option<TableAddr>, DefinedModuleError>(None),
                Some(ExternalValue::Table(a)) => r == Ok::<Option<TableAddr>, DefinedModuleError>(Some(a)),
                Some(v) => r matches Err(DefinedModuleError::TypeMismatch(exp, act))
                    && exp@ == "table"@ && act@ == v.spec_ty(),
            },
    {
        match self.exported_by_name(name) {
            Some(e) => match e.value() {
                ExternalValue::Table(addr) => Ok(Some(*addr)),
                _ => Err(DefinedModuleError::TypeMismatch("table", e.value().ty().to_owned())),
            },
            None => Ok(None),
        }
    }

    /// The memory exported under `name`; an error when that export is of another kind.
    pub fn exported_memory(&self, name: &str) -> (r: Result<Option<MemoryAddr>, DefinedModuleError>)
        ensures
            match self.spec_exported(name@) {
                None => r == Ok::<Option<MemoryAddr>, DefinedModuleError>(None),
                Some(ExternalValue::Memory(a)) => r == Ok::<Option<MemoryAddr>, DefinedModuleError>(Some(a)),
                Some(v) => r matches Err(DefinedModuleError::TypeMismatch(exp, act))
                    && exp@ == "memory"@ && act@ == v.spec_ty(),
            },
    {
        match self.exported_by_name(name) {
            Some(e) => match e.value() {
                ExternalValue::Memory(addr) => Ok(Some(*addr)),
                _ => Err(DefinedModuleError::TypeMismatch("memory", e.value().ty().to_owned())),
            },
            None => Ok(None),
        }
    }

    /// The function that the start section names.
    pub fn start_func_addr(&self) -> (r: &Option<FuncAddr>)
        ensures
            *r == self.spec_start_func(),
    {
        &self.start_func
    }

    /// The function type at an index of the type section.
    pub fn get_type(&self, index: usize) -> (r: Option<&FunctionType>)
        ensures
            r == (if index < self.spec_types().len() { Some(&self.spec_types()[index as int]) } else { None }),
    {
        if index < self.types.len() {
            Some(&self.types[index])
        } else {
            None
        }
    }
}

/// What a host module provides under a name.
#[derive(Clone, Debug)]
pub enum HostExport {
    /// A function the host runs, of the given signature.
    Func(FunctionType),
    Global(GlobalAddr),
    Mem(MemoryAddr),
    Table(TableAddr),
}

impl HostExport {
    pub open spec fn spec_ty(&self) -> Seq<char> {
        match self {
            HostExport::Func(_) => "function"@,
            HostExport::Global(_) => "global"@,
            HostExport::Mem(_) => "memory"@,
            HostExport::Table(_) => "table"@,
        }
    }

    /// The kind of the export, as a word.
    pub fn ty(&self) -> (r: &'static str)
        ensures
            r@ == self.spec_ty(),
    {
        match self {
            HostExport::Func(_) => "function",
            HostExport::Global(_) => "global",
            HostExport::Mem(_) => "memory",
            HostExport::Table(_) => "table",
        }
    }
}

/// Errors of typed lookups in a host module.
#[derive(Clone, Debug)]
pub enum HostModuleError {
    /// The kind asked for and the kind found.
    TypeMismatch(&'static str, String),
}

impl HostModuleError {
    /// The text the error is shown as.
    pub open spec fn spec_message(&self) -> Seq<char> {
        match self {
            HostModuleError::TypeMismatch(expected, actual) =>
                "incompatible import type, expected "@ + expected@ + " but actual "@ + actual@,
        }
    }

    pub fn message(&self) -> (r: String)
        ensures
            r@ == self.spec_message(),
    {
        let mut s = String::new();
        match self {
            HostModuleError::TypeMismatch(expected, actual) => {
                s.append("incompatible import type, expected ");
                s.append(expected);
                s.append(" but actual ");
                s.append(actual.as_str());
            },
        }
        proof {
            reveal_strlit("incompatible import type, expected ");
            reveal_strlit(" but actual ");
        }
        s
    }
}

/// A module provided by the host: named values, no two of one name.
pub struct HostModuleInstance {
    values: Vec<(String, HostExport)>,
}

impl HostModuleInstance {
    pub closed spec fn spec_names(&self) -> Seq<Seq<char>> {
        self.values@.map_values(|p: (String, HostExport)| p.0@)
    }

    pub closed spec fn spec_values(&self) -> Seq<HostExport> {
        self.values@.map_values(|p: (String, HostExport)| p.1)
    }

    /// The value of a name, if the module has it.
    pub open spec fn spec_get(&self, name: Seq<char>) -> Option<HostExport> {
        if exists|i: int| 0 <= i < self.spec_names().len() && self.spec_names()[i] == name {
            let i = choose|i: int| 0 <= i < self.spec_names().len() && self.spec_names()[i] == name;
            Some(self.spec_values()[i])
        } else {
            None
        }
    }

    pub closed spec fn wf(&self) -> bool {
        forall|i: int, j: int| 0 <= i < j < self.values@.len()
            ==> (#[trigger] self.values@[i]).0@ != (#[trigger] self.values@[j]).0@
    }

    /// A host module of the given named values.
    pub fn new(values: Vec<(String, HostExport)>) -> (m: Self)
        requires
            forall|i: int, j: int| 0 <= i < j < values@.len() ==> values@[i].0@ != values@[j].0@,
        ensures
            m.wf(),
            m.spec_names() == values@.map_values(|p: (String, HostExport)| p.0@),
            m.spec_values() == values@.map_values(|p: (String, HostExport)| p.1),
    {
        HostModuleInstance { values }
    }

    fn get(&self, name: &str) -> (r: Option<&HostExport>)
        requires
            self.wf(),
        ensures
            match self.spec_get(name@) {
                Some(v) => r == Some(&v),
                None => r is None,
            },
    {
        let mut i: usize = 0;
        while i < self.values.len()
            invariant
                self.wf(),
                i <= self.values@.len(),
                forall|j: int| 0 <= j < i ==> self.values@[j].0@ != name@,
            decreases self.values@.len() - i,
        {
            if str_eq(self.values[i].0.as_str(), name) {
                proof {
                    assert(self.spec_names()[i as int] == name@);
                    let k = choose|k: int| 0 <= k < self.spec_names().len() && self.spec_names()[k] == name@;
                    assert(self.spec_names()[k] == self.values@[k].0@);
                    if k < i {
                        assert(self.values@[k].0@ != name@);
                    } else if k > i {
                        let a = self.values@[i as int];
                        let b = self.values@[k];
                        assert(a.0@ != b.0@);
                    }
                }
                return Some(&self.values[i].1);
            }
            i = i + 1;
        }
        proof {
            if exists|k: int| 0 <= k < self.spec_names().len() && self.spec_names()[k] == name@ {
                let k = choose|k: int| 0 <= k < self.spec_names().len() && self.spec_names()[k] == name@;
                assert(self.spec_names()[k] == self.values@[k].0@);
            }
        }
        None
    }

    /// The global provided under `name`; an error when that value is of another kind.
    pub fn global_by_name(&self, name: &str) -> (r: Result<Option<GlobalAddr>, HostModuleError>)
        requires
            self.wf(),
        ensures
            match self.spec_get(name@) {
                None => r == Ok::<Option<GlobalAddr>, HostModuleError>(None),
                Some(HostExport::Global(a)) => r == Ok::<Option<GlobalAddr>, HostModuleError>(Some(a)),
                Some(v) => r matches Err(HostModuleError::TypeMismatch(exp, act))
                    && exp@ == "global"@ && act@ == v.spec_ty(),
            },
    {
        match self.get(name) {
            Some(HostExport::Global(global)) => Ok(Some(*global)),
            Some(v) => Err(HostModuleError::TypeMismatch("global", v.ty().to_owned())),
            None => Ok(None),
        }
    }

    /// The signature of the function provided under `name`; an error when
    /// that value is of another kind.
    pub fn func_by_name(&self, name: &str) -> (r: Result<Option<&FunctionType>, HostModuleError>)
        requires
            self.wf(),
        ensures
            match self.spec_get(name@) {
                None => r matches Ok(None),
                Some(HostExport::Func(t)) => r matches Ok(Some(rt)) && *rt == t,
                Some(v) => r matches Err(HostModuleError::TypeMismatch(exp, act))
                    && exp@ == "function"@ && act@ == v.spec_ty(),
            },
    {
        match self.get(name) {
            Some(HostExport::Func(ty)) => Ok(Some(ty)),
            Some(v) => Err(HostModuleError::TypeMismatch("function", v.ty().to_owned())),
            None => Ok(None),
        }
    }

    /// The table provided under `name`; an error when that value is of another kind.
    pub fn table_by_name(&self, name: &str) -> (r: Result<Option<TableAddr>, HostModuleError>)
        requires
            self.wf(),
        ensures
            match self.spec_get(name@) {
                None => r == Ok::<Option<TableAddr>, HostModuleError>(None),
                Some(HostExport::Table(a)) => r == Ok::<Option<TableAddr>, HostModuleError>(Some(a)),
                Some(v) => r matches Err(HostModuleError::TypeMismatch(exp, act))
                    && exp@ == "table"@ && act@ == v.spec_ty(),
            },
    {
        match self.get(name) {
            Some(HostExport::Table(table)) => Ok(Some(*table)),
            Some(v) => Err(HostModuleError::TypeMismatch("table", v.ty().to_owned())),
            None => Ok(None),
        }
    }

    /// The memory provided under `name`; an error when that value is of another kind.
    pub fn memory_by_name(&self, name: &str) -> (r: Result<Option<MemoryAddr>, HostModuleError>)
        requires
            self.wf(),
        ensures
            match self.spec_get(name@) {
                None => r == Ok::<Option<MemoryAddr>, HostModuleError>(None),
                Some(HostExport::Mem(a)) => r == Ok::<Option<MemoryAddr>, HostModuleError>(Some(a)),
                Some(v) => r matches Err(HostModuleError::TypeMismatch(exp, act))
                    && exp@ == "memory"@ && act@ == v.spec_ty(),
            },
    {
        match self.get(name) {
            Some(HostExport::Mem(mem)) => Ok(Some(*mem)),
            Some(v) => Err(HostModuleError::TypeMismatch("memory", v.ty().to_owned())),
            None => Ok(None),
        }
    }
}

/// A module instance in the store.
pub enum ModuleInstance {
    Defined(DefinedModuleInstance),
    Host(HostModuleInstance),
}

impl ModuleInstance {
    /// The defined module, if this is one.
    pub fn defined(&self) -> (r: Option<&DefinedModuleInstance>)
        ensures
            match self {
                ModuleInstance::Defined(d) => r == Some(d),
                ModuleInstance::Host(_) => r is None,
            },
    {
        match self {
            ModuleInstance::Defined(defined) => Some(defined),
            _ => None,
        }
    }
}

} // verus!
