//! Global variables.

use vstd::prelude::*;
use crate::vm::value::{Value, ValueType};

verus! {

/// The type of a global: its value type and whether it can be set.
#[derive(Clone, Copy, Debug, PartialEq, Eq, Structural)]
pub struct GlobalType {
    pub content_type: ValueType,
    pub mutable: bool,
}

impl GlobalType {
    /// Whether the global can be set.
    pub fn is_mutable(&self) -> (r: bool)
        ensures
            r == self.mutable,
    {
        self.mutable
    }
}

/// A global defined by a module.
#[derive(Clone, Copy, Debug)]
pub struct DefinedGlobalInstance {
    ty: GlobalType,
    value: Value,
}

impl DefinedGlobalInstance {
    pub closed spec fn spec_ty(&self) -> GlobalType {
        self.ty
    }

    pub closed spec fn spec_value(&self) -> Value {
        self.value
    }

    /// The same global holding another value.
    pub closed spec fn with_value(self, value: Value) -> Self {
        DefinedGlobalInstance { value, ..self }
    }

    pub fn new(value: Value, ty: GlobalType) -> (g: Self)
        ensures
            g.spec_value() == value,
            g.spec_ty() == ty,
    {
        DefinedGlobalInstance { value, ty }
    }

    /// The current value.
    pub fn value(&self) -> (v: Value)
        ensures
            v == self.spec_value(),
    {
        self.value
    }

    /// Sets the value of a mutable global.
    pub fn set_value(&mut self, value: Value)
        requires
            old(self).spec_ty().mutable,
        ensures
            *final(self) == old(self).with_value(value),
            final(self).spec_value() == value,
            final(self).spec_ty() == old(self).spec_ty(),
    {
        self.value = value
    }

    /// Whether the global can be set.
    pub fn is_mutable(&self) -> (r: bool)
        ensures
            r == self.spec_ty().mutable,
    {
        self.ty.is_mutable()
    }

    /// The type of the global.
    pub fn ty(&self) -> (r: &GlobalType)
        ensures
            *r == self.spec_ty(),
    {
        &self.ty
    }
}

/// A global imported by name.
pub struct ExternalGlobalInstance {
    pub module_name: String,
    pub name: String,
    pub ty: GlobalType,
}

impl ExternalGlobalInstance {
    pub fn new(module_name: String, name: String, ty: GlobalType) -> (g: Self)
        ensures
            g.module_name@ == module_name@,
            g.name@ == name@,
            g.ty == ty,
    {
        ExternalGlobalInstance { module_name, name, ty }
    }
}

} // verus!
