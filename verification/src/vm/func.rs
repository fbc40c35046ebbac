//! Function instances: functions defined by a module and functions
//! imported from the host.

use vstd::prelude::*;
use crate::vm::address::ModuleIndex;
use crate::vm::instruction::Instruction;
use crate::vm::value::ValueType;

verus! {

/// The index of an instruction in a function body.
#[derive(Clone, Copy, Debug, PartialEq, Eq, Structural)]
pub struct InstIndex(pub u32);

impl InstIndex {
    /// The first instruction.
    pub fn zero() -> (i: InstIndex)
        ensures
            i.0 == 0,
    {
        InstIndex(0)
    }
}

/// The signature of a function.
#[derive(Clone, Debug)]
pub struct FunctionType {
    pub params: Vec<ValueType>,
    pub returns: Vec<ValueType>,
}

impl FunctionType {
    /// Whether two signatures are the same.
    pub fn same(&self, other: &FunctionType) -> (r: bool)
        ensures
            r == (self.params@ == other.params@ && self.returns@ == other.returns@),
    {
        vec_eq(&self.params, &other.params) && vec_eq(&self.returns, &other.returns)
    }
}

fn vec_eq(a: &Vec<ValueType>, b: &Vec<ValueType>) -> (r: bool)
    ensures
        r == (a@ == b@),
{
    if a.len() != b.len() {
        return false;
    }
    let mut i: usize = 0;
    while i < a.len()
        invariant
            a.len() == b.len(),
            i <= a.len(),
            forall|j: int| 0 <= j < i ==> a@[j] == b@[j],
        decreases a.len() - i,
    {
        if a[i] != b[i] {
            return false;
        }
        i = i + 1;
    }
    assert(a@ =~= b@);
    true
}

/// A group of locals of one type, as a function body declares them.
#[derive(Clone, Copy, Debug)]
pub struct Locals {
    pub count: u32,
    pub value_type: ValueType,
}

/// The types of the locals that a list of groups declares, in order.
pub open spec fn expand_locals(groups: Seq<Locals>) -> Seq<ValueType>
    decreases groups.len(),
{
    if groups.len() == 0 {
        Seq::empty()
    } else {
        expand_locals(groups.drop_last()) + Seq::new(
            groups.last().count as nat,
            |_i: int| groups.last().value_type,
        )
    }
}

/// A function defined by a module.
pub struct DefinedFunctionInstance {
    name: String,
    ty: FunctionType,
    module_index: ModuleIndex,
    locals: Vec<ValueType>,
    instructions: Vec<Instruction>,
}

impl DefinedFunctionInstance {
    pub closed spec fn spec_name(&self) -> Seq<char> {
        self.name@
    }

    pub closed spec fn spec_ty(&self) -> FunctionType {
        self.ty
    }

    pub closed spec fn spec_module_index(&self) -> ModuleIndex {
        self.module_index
    }

    pub closed spec fn spec_locals(&self) -> Seq<ValueType> {
        self.locals@
    }

    pub closed spec fn spec_instructions(&self) -> Seq<Instruction> {
        self.instructions@
    }

    /// Builds a function from its declared local groups and its body; the
    /// locals are the groups expanded in order.
    pub fn new(
        name: String,
        ty: FunctionType,
        module_index: ModuleIndex,
        local_groups: Vec<Locals>,
        instructions: Vec<Instruction>,
    ) -> (f: Self)
        requires
            expand_locals(local_groups@).len() <= usize::MAX,
        ensures
            f.spec_name() == name@,
            f.spec_ty() == ty,
            f.spec_module_index() == module_index,
            f.spec_locals() == expand_locals(local_groups@),
            f.spec_instructions() == instructions@,
    {
        let mut locals: Vec<ValueType> = Vec::new();
        let mut g: usize = 0;
        while g < local_groups.len()
            invariant
                g <= local_groups.len(),
                locals@ == expand_locals(local_groups@.subrange(0, g as int)),
                expand_locals(local_groups@).len() <= usize::MAX,
            decreases local_groups.len() - g,
        {
            let group = local_groups[g];
            proof {
                lemma_expand_locals_prefix(local_groups@, (g + 1) as nat);
                assert(local_groups@.subrange(0, g + 1).drop_last() =~= local_groups@.subrange(0, g as int));
            }
            let mut k: u32 = 0;
            let ghost before = locals@;
            while k < group.count
                invariant
                    k <= group.count,
                    locals@ == before + Seq::new(k as nat, |_i: int| group.value_type),
                    before.len() + group.count <= usize::MAX,
                decreases group.count - k,
            {
                locals.push(group.value_type);
                k = k + 1;
                assert(locals@ =~= before + Seq::new(k as nat, |_i: int| group.value_type));
            }
            g = g + 1;
        }
        assert(local_groups@.subrange(0, local_groups@.len() as int) =~= local_groups@);
        DefinedFunctionInstance { name, ty, module_index, locals, instructions }
    }

    /// The name of the function.
    pub fn name(&self) -> (r: &String)
        ensures
            r@ == self.spec_name(),
    {
        &self.name
    }

    /// The signature of the function.
    pub fn ty(&self) -> (r: &FunctionType)
        ensures
            *r == self.spec_ty(),
    {
        &self.ty
    }

    /// The module that defines the function.
    pub fn module_index(&self) -> (r: ModuleIndex)
        ensures
            r == self.spec_module_index(),
    {
        self.module_index
    }

    /// The body of the function.
    pub fn instructions(&self) -> (r: &[Instruction])
        ensures
            r@ == self.spec_instructions(),
    {
        self.instructions.as_slice()
    }

    /// The types of the locals declared by the body, after the parameters.
    pub fn locals(&self) -> (r: &[ValueType])
        ensures
            r@ == self.spec_locals(),
    {
        self.locals.as_slice()
    }

    /// The instruction at an index of the body.
    pub fn inst(&self, index: InstIndex) -> (r: &Instruction)
        requires
            (index.0 as int) < self.spec_instructions().len(),
        ensures
            *r == self.spec_instructions()[index.0 as int],
    {
        &self.instructions[index.0 as usize]
    }
}

/// Expanding a prefix one group longer appends that group's locals.
pub(crate) proof fn lemma_expand_locals_prefix(groups: Seq<Locals>, n: nat)
    requires
        0 < n <= groups.len(),
    ensures
        expand_locals(groups.subrange(0, n as int)) == expand_locals(groups.subrange(0, n - 1))
            + Seq::new(groups[n - 1].count as nat, |_i: int| groups[n - 1].value_type),
        expand_locals(groups.subrange(0, n as int)).len() <= expand_locals(groups).len(),
    decreases groups.len() - n,
{
    let pre = groups.subrange(0, n as int);
    assert(pre.drop_last() =~= groups.subrange(0, n - 1));
    if n < groups.len() {
        lemma_expand_locals_prefix(groups, n + 1);
    } else {
        assert(pre =~= groups);
    }
}

/// A function imported from another module, found by name when called.
pub struct HostFunctionInstance {
    ty: FunctionType,
    module_name: String,
    field_name: String,
}

impl HostFunctionInstance {
    pub closed spec fn spec_ty(&self) -> FunctionType {
        self.ty
    }

    pub closed spec fn spec_module_name(&self) -> Seq<char> {
        self.module_name@
    }

    pub closed spec fn spec_field_name(&self) -> Seq<char> {
        self.field_name@
    }

    /// An imported function of the given signature and name.
    pub fn new(ty: FunctionType, module_name: String, field_name: String) -> (f: Self)
        ensures
            f.spec_ty() == ty,
            f.spec_module_name() == module_name@,
            f.spec_field_name() == field_name@,
    {
        HostFunctionInstance { ty, module_name, field_name }
    }

    /// The signature of the function.
    pub fn ty(&self) -> (r: &FunctionType)
        ensures
            *r == self.spec_ty(),
    {
        &self.ty
    }

    /// The name of the module it is imported from.
    pub fn module_name(&self) -> (r: &String)
        ensures
            r@ == self.spec_module_name(),
    {
        &self.module_name
    }

    /// The name it is imported under.
    pub fn field_name(&self) -> (r: &String)
        ensures
            r@ == self.spec_field_name(),
    {
        &self.field_name
    }
}

/// A function instance in the store.
pub enum FunctionInstance {
    Defined(DefinedFunctionInstance),
    Host(HostFunctionInstance),
}

impl FunctionInstance {
    pub open spec fn spec_ty(&self) -> FunctionType {
        match self {
            FunctionInstance::Defined(d) => d.spec_ty(),
            FunctionInstance::Host(h) => h.spec_ty(),
        }
    }

    /// The signature of the function.
    pub fn ty(&self) -> (r: &FunctionType)
        ensures
            *r == self.spec_ty(),
    {
        match self {
            FunctionInstance::Defined(defined) => defined.ty(),
            FunctionInstance::Host(host) => host.ty(),
        }
    }

    /// The defined function, if this is one.
    pub fn defined(&self) -> (r: Option<&DefinedFunctionInstance>)
        ensures
            match self {
                FunctionInstance::Defined(d) => r == Some(d),
                FunctionInstance::Host(_) => r is None,
            },
    {
        match self {
            FunctionInstance::Defined(defined) => Some(defined),
            _ => None,
        }
    }
}

} // verus!
