//! The library's own description of Windows metadata, as plain values.
//!
//! Types are `TypeModel` trees, type definitions and methods are records held
//! in a `Metadata` table and referred to by their position in it. A metadata
//! reader fills these records once; every rule of the library then works on
//! them.

use vstd::prelude::*;

verus! {

/// A type as a metadata signature or field describes it.
///
/// `TypeDef(i, args)` refers to `Metadata::type_defs[i]`, with the type
/// arguments of a generic instance (none for a type that is not one).
#[derive(PartialEq, Eq, Debug)]
pub enum TypeModel {
    Void,
    Bool,
    Char,
    I8,
    U8,
    I16,
    U16,
    I32,
    U32,
    I64,
    U64,
    Float32,
    Float64,
    ISize,
    USize,
    Guid,
    HString,
    IInspectable,
    TypeName,
    TypeRef,
    GenericParam(u16),
    TypeDef(usize, TypeArgs),
    MutPtr(Box<TypeModel>, usize),
    ConstPtr(Box<TypeModel>, usize),
    Win32Array(Box<TypeModel>, usize),
    WinrtArray(Box<TypeModel>),
    WinrtArrayRef(Box<TypeModel>),
    ConstRef(Box<TypeModel>),
    PrimitiveOrEnum(Box<TypeModel>, Box<TypeModel>),
    HResult,
    IUnknown,
    Pstr,
    Pwstr,
    Pcstr,
    Pcwstr,
    Bstr,
}

/// The type arguments of a generic instance, in order.
#[derive(PartialEq, Eq, Debug)]
pub enum TypeArgs {
    End,
    Arg(Box<TypeModel>, Box<TypeArgs>),
}

impl TypeArgs {
    /// Every argument names only definitions below `n` (see
    /// `TypeModel::refs_below`).
    pub open spec fn refs_below(self, n: nat) -> bool
        decreases self,
    {
        match self {
            TypeArgs::End => true,
            TypeArgs::Arg(t, rest) => (*t).refs_below(n) && (*rest).refs_below(n),
        }
    }

    /// The arguments with their generic parameters replaced (see
    /// `TypeModel::substitute`).
    pub open spec fn substitute(self, generics: Seq<TypeModel>) -> TypeArgs
        decreases self,
    {
        match self {
            TypeArgs::End => TypeArgs::End,
            TypeArgs::Arg(t, rest) => TypeArgs::Arg(
                Box::new((*t).substitute(generics)),
                Box::new((*rest).substitute(generics)),
            ),
        }
    }

    /// A copy of the arguments.
    pub fn copy(&self) -> (r: TypeArgs)
        ensures
            r == *self,
        decreases self,
    {
        match self {
            TypeArgs::End => TypeArgs::End,
            TypeArgs::Arg(t, rest) => TypeArgs::Arg(Box::new((**t).copy()), Box::new((**rest).copy())),
        }
    }

    /// Whether every argument names only definitions below `n`.
    pub fn check_refs_below(&self, n: usize) -> (r: bool)
        ensures
            r == self.refs_below(n as nat),
        decreases self,
    {
        match self {
            TypeArgs::End => true,
            TypeArgs::Arg(t, rest) => (**t).check_refs_below(n) && (**rest).check_refs_below(n),
        }
    }

    /// The arguments with their generic parameters replaced.
    pub fn substitute_generics(&self, generics: &Vec<TypeModel>) -> (r: TypeArgs)
        ensures
            r == self.substitute(generics@),
        decreases self,
    {
        match self {
            TypeArgs::End => TypeArgs::End,
            TypeArgs::Arg(t, rest) => TypeArgs::Arg(
                Box::new((**t).substitute_generics(generics)),
                Box::new((**rest).substitute_generics(generics)),
            ),
        }
    }

    pub proof fn lemma_substitute_refs_below(self, generics: Seq<TypeModel>, n: nat)
        requires
            self.refs_below(n),
            forall|i: int| 0 <= i < generics.len() ==> #[trigger] generics[i].refs_below(n),
        ensures
            self.substitute(generics).refs_below(n),
        decreases self,
    {
        match self {
            TypeArgs::End => {},
            TypeArgs::Arg(t, rest) => {
                (*t).lemma_substitute_refs_below(generics, n);
                (*rest).lemma_substitute_refs_below(generics, n);
            },
        }
    }
}

impl TypeModel {
    /// The `const` form of a type: pointees become `const` and `PSTR`/`PWSTR`
    /// become `PCSTR`/`PCWSTR`.
    pub open spec fn spec_to_const_type(self) -> TypeModel
        decreases self,
    {
        match self {
            TypeModel::MutPtr(k, n) => TypeModel::MutPtr(Box::new((*k).spec_to_const_type()), n),
            TypeModel::ConstPtr(k, n) => TypeModel::ConstPtr(Box::new((*k).spec_to_const_type()), n),
            TypeModel::Pstr => TypeModel::Pcstr,
            TypeModel::Pwstr => TypeModel::Pcwstr,
            _ => self,
        }
    }

    /// A mutable pointer turned into a const pointer; other types unchanged.
    pub open spec fn spec_to_const_ptr(self) -> TypeModel {
        match self {
            TypeModel::MutPtr(k, n) => TypeModel::ConstPtr(k, n),
            _ => self,
        }
    }

    pub open spec fn spec_is_pointer(self) -> bool {
        self is ConstPtr || self is MutPtr
    }

    /// A pointer to void, at any depth of indirection, or void itself.
    pub open spec fn spec_is_void(self) -> bool
        decreases self,
    {
        match self {
            TypeModel::ConstPtr(k, _) => (*k).spec_is_void(),
            TypeModel::MutPtr(k, _) => (*k).spec_is_void(),
            TypeModel::Void => true,
            _ => false,
        }
    }

    /// The type addresses single bytes.
    pub open spec fn spec_is_byte_size(self) -> bool
        decreases self,
    {
        match self {
            TypeModel::ConstPtr(k, _) => (*k).spec_is_byte_size(),
            TypeModel::MutPtr(k, _) => (*k).spec_is_byte_size(),
            TypeModel::I8 | TypeModel::U8 | TypeModel::Pstr | TypeModel::Pcstr => true,
            _ => false,
        }
    }

    /// The types on which one level of indirection can be removed.
    pub open spec fn can_deref(self) -> bool {
        match self {
            TypeModel::ConstPtr(_, n) => n >= 1,
            TypeModel::MutPtr(_, n) => n >= 1,
            TypeModel::Pstr | TypeModel::Pcstr | TypeModel::Pwstr | TypeModel::Pcwstr => true,
            _ => false,
        }
    }

    /// The type with one level of indirection removed.
    pub open spec fn spec_deref(self) -> TypeModel
        recommends
            self.can_deref(),
    {
        match self {
            TypeModel::ConstPtr(k, n) => if n == 1 {
                if *k == TypeModel::Void {
                    TypeModel::U8
                } else {
                    *k
                }
            } else {
                TypeModel::ConstPtr(k, (n - 1) as usize)
            },
            TypeModel::MutPtr(k, n) => if n == 1 {
                if *k == TypeModel::Void {
                    TypeModel::U8
                } else {
                    *k
                }
            } else {
                TypeModel::MutPtr(k, (n - 1) as usize)
            },
            TypeModel::Pstr | TypeModel::Pcstr => TypeModel::U8,
            _ => TypeModel::U16,
        }
    }

    /// Every type definition that the type names is a position below `n`, and
    /// every pointer has at least one level of indirection.
    pub open spec fn refs_below(self, n: nat) -> bool
        decreases self,
    {
        match self {
            TypeModel::TypeDef(i, args) => i < n && args.refs_below(n),
            TypeModel::MutPtr(k, c) => c >= 1 && (*k).refs_below(n),
            TypeModel::ConstPtr(k, c) => c >= 1 && (*k).refs_below(n),
            TypeModel::Win32Array(k, _) => (*k).refs_below(n),
            TypeModel::WinrtArray(k) => (*k).refs_below(n),
            TypeModel::WinrtArrayRef(k) => (*k).refs_below(n),
            TypeModel::ConstRef(k) => (*k).refs_below(n),
            TypeModel::PrimitiveOrEnum(k, e) => (*k).refs_below(n) && (*e).refs_below(n),
            _ => true,
        }
    }

    /// A copy of the type.
    pub fn copy(&self) -> (r: TypeModel)
        ensures
            r == *self,
        decreases self,
    {
        match self {
            TypeModel::Void => TypeModel::Void,
            TypeModel::Bool => TypeModel::Bool,
            TypeModel::Char => TypeModel::Char,
            TypeModel::I8 => TypeModel::I8,
            TypeModel::U8 => TypeModel::U8,
            TypeModel::I16 => TypeModel::I16,
            TypeModel::U16 => TypeModel::U16,
            TypeModel::I32 => TypeModel::I32,
            TypeModel::U32 => TypeModel::U32,
            TypeModel::I64 => TypeModel::I64,
            TypeModel::U64 => TypeModel::U64,
            TypeModel::Float32 => TypeModel::Float32,
            TypeModel::Float64 => TypeModel::Float64,
            TypeModel::ISize => TypeModel::ISize,
            TypeModel::USize => TypeModel::USize,
            TypeModel::Guid => TypeModel::Guid,
            TypeModel::HString => TypeModel::HString,
            TypeModel::IInspectable => TypeModel::IInspectable,
            TypeModel::TypeName => TypeModel::TypeName,
            TypeModel::TypeRef => TypeModel::TypeRef,
            TypeModel::GenericParam(g) => TypeModel::GenericParam(*g),
            TypeModel::TypeDef(i, args) => TypeModel::TypeDef(*i, args.copy()),
            TypeModel::MutPtr(k, n) => TypeModel::MutPtr(Box::new((**k).copy()), *n),
            TypeModel::ConstPtr(k, n) => TypeModel::ConstPtr(Box::new((**k).copy()), *n),
            TypeModel::Win32Array(k, n) => TypeModel::Win32Array(Box::new((**k).copy()), *n),
            TypeModel::WinrtArray(k) => TypeModel::WinrtArray(Box::new((**k).copy())),
            TypeModel::WinrtArrayRef(k) => TypeModel::WinrtArrayRef(Box::new((**k).copy())),
            TypeModel::ConstRef(k) => TypeModel::ConstRef(Box::new((**k).copy())),
            TypeModel::PrimitiveOrEnum(k, e) => TypeModel::PrimitiveOrEnum(
                Box::new((**k).copy()),
                Box::new((**e).copy()),
            ),
            TypeModel::HResult => TypeModel::HResult,
            TypeModel::IUnknown => TypeModel::IUnknown,
            TypeModel::Pstr => TypeModel::Pstr,
            TypeModel::Pwstr => TypeModel::Pwstr,
            TypeModel::Pcstr => TypeModel::Pcstr,
            TypeModel::Pcwstr => TypeModel::Pcwstr,
            TypeModel::Bstr => TypeModel::Bstr,
        }
    }

    /// Converts the type to its `const` form.
    pub fn to_const_type(self) -> (r: TypeModel)
        ensures
            r == self.spec_to_const_type(),
        decreases self,
    {
        match self {
            TypeModel::MutPtr(k, n) => TypeModel::MutPtr(Box::new((*k).to_const_type()), n),
            TypeModel::ConstPtr(k, n) => TypeModel::ConstPtr(Box::new((*k).to_const_type()), n),
            TypeModel::Pstr => TypeModel::Pcstr,
            TypeModel::Pwstr => TypeModel::Pcwstr,
            other => other,
        }
    }

    /// Converts a mutable pointer to a const pointer.
    pub fn to_const_ptr(self) -> (r: TypeModel)
        ensures
            r == self.spec_to_const_ptr(),
    {
        match self {
            TypeModel::MutPtr(k, n) => TypeModel::ConstPtr(k, n),
            other => other,
        }
    }

    pub fn is_pointer(&self) -> (r: bool)
        ensures
            r == self.spec_is_pointer(),
    {
        match self {
            TypeModel::ConstPtr(_, _) | TypeModel::MutPtr(_, _) => true,
            _ => false,
        }
    }

    pub fn is_void(&self) -> (r: bool)
        ensures
            r == self.spec_is_void(),
        decreases self,
    {
        match self {
            TypeModel::ConstPtr(k, _) => (**k).is_void(),
            TypeModel::MutPtr(k, _) => (**k).is_void(),
            TypeModel::Void => true,
            _ => false,
        }
    }

    pub fn is_byte_size(&self) -> (r: bool)
        ensures
            r == self.spec_is_byte_size(),
        decreases self,
    {
        match self {
            TypeModel::ConstPtr(k, _) => (**k).is_byte_size(),
            TypeModel::MutPtr(k, _) => (**k).is_byte_size(),
            TypeModel::I8 | TypeModel::U8 | TypeModel::Pstr | TypeModel::Pcstr => true,
            _ => false,
        }
    }

    pub fn is_winrt_array(&self) -> (r: bool)
        ensures
            r == (*self is WinrtArray),
    {
        match self {
            TypeModel::WinrtArray(_) => true,
            _ => false,
        }
    }

    /// Removes one level of indirection.
    pub fn deref(&self) -> (r: TypeModel)
        requires
            self.can_deref(),
        ensures
            r == self.spec_deref(),
    {
        match self {
            TypeModel::ConstPtr(k, n) => {
                if *n == 1 {
                    if matches!(**k, TypeModel::Void) {
                        TypeModel::U8
                    } else {
                        (**k).copy()
                    }
                } else {
                    TypeModel::ConstPtr(Box::new((**k).copy()), *n - 1)
                }
            },
            TypeModel::MutPtr(k, n) => {
                if *n == 1 {
                    if matches!(**k, TypeModel::Void) {
                        TypeModel::U8
                    } else {
                        (**k).copy()
                    }
                } else {
                    TypeModel::MutPtr(Box::new((**k).copy()), *n - 1)
                }
            },
            TypeModel::Pstr | TypeModel::Pcstr => TypeModel::U8,
            _ => TypeModel::U16,
        }
    }
}

/// The kind of a type definition, from what it extends.
#[derive(Copy, Clone, PartialEq, Eq, Debug, Structural)]
pub enum TypeKind {
    Interface,
    Class,
    Enum,
    Struct,
    Delegate,
}

/// A fixed argument of a custom attribute.
#[derive(Debug)]
pub enum ArgValue {
    I16(i16),
    I32(i32),
    Str(String),
    /// An argument of any other type.
    Other,
}

/// A custom attribute: the name of its type and its arguments, in order.
pub struct AttributeInfo {
    pub name: String,
    pub args: Vec<ArgValue>,
}

/// A row of the TypeDef table.
pub struct TypeDefInfo {
    pub namespace: String,
    pub name: String,
    /// The `TypeAttributes` bits.
    pub flags: u32,
    pub kind: TypeKind,
    pub attributes: Vec<AttributeInfo>,
    /// The type of each field, in order.
    pub fields: Vec<TypeModel>,
    /// The number of each generic parameter, in order.
    pub generics: Vec<u16>,
    /// The methods, as positions in `Metadata::methods`.
    pub methods: Vec<usize>,
    /// Every type definition with this namespace and name, as positions, in the
    /// order a reader lists them.
    pub same_name: Vec<usize>,
    /// The size in bytes of a value of the type.
    pub size: usize,
}

/// A row of the Param table.
pub struct ParamInfo {
    /// The `ParamAttributes` bits.
    pub flags: u16,
    /// 0 for the return value, `k` for the `k`th parameter.
    pub sequence: u16,
    pub attributes: Vec<AttributeInfo>,
}

/// A row of the MethodDef table with its decoded signature blob.
pub struct MethodInfo {
    pub name: String,
    pub attributes: Vec<AttributeInfo>,
    /// The `PInvokeAttributes` bits of the method's ImplMap row, if it has one.
    pub impl_map_flags: Option<usize>,
    /// The first value of the signature blob: the calling-convention flags.
    pub call_flags: usize,
    pub return_type: TypeModel,
    /// The parameter types that follow the return type in the blob, in order.
    pub param_types: Vec<TypeModel>,
    /// The Param rows, in order, as positions in `Metadata::params`.
    pub params: Vec<usize>,
}

/// The metadata that the library's rules read.
pub struct Metadata {
    pub type_defs: Vec<TypeDefInfo>,
    pub methods: Vec<MethodInfo>,
    pub params: Vec<ParamInfo>,
}

impl Metadata {
    /// Every position that a record holds refers to an existing record.
    pub open spec fn wf(&self) -> bool {
        let n = self.type_defs@.len();
        let m = self.methods@.len();
        &&& forall|i: int, j: int|
            #![trigger self.type_defs@[i].fields@[j]]
            0 <= i < n && 0 <= j < self.type_defs@[i].fields@.len()
                ==> self.type_defs@[i].fields@[j].refs_below(n)
        &&& forall|i: int, j: int|
            #![trigger self.type_defs@[i].same_name@[j]]
            0 <= i < n && 0 <= j < self.type_defs@[i].same_name@.len()
                ==> self.type_defs@[i].same_name@[j] < n
        &&& forall|i: int, j: int|
            #![trigger self.type_defs@[i].methods@[j]]
            0 <= i < n && 0 <= j < self.type_defs@[i].methods@.len()
                ==> self.type_defs@[i].methods@[j] < m
        &&& forall|i: int| #![trigger self.methods@[i]] 0 <= i < m ==> self.methods@[i].return_type.refs_below(n)
        &&& forall|i: int, j: int|
            #![trigger self.methods@[i].params@[j]]
            0 <= i < m && 0 <= j < self.methods@[i].params@.len()
                ==> self.methods@[i].params@[j] < self.params@.len()
        &&& forall|i: int, j: int|
            #![trigger self.methods@[i].param_types@[j]]
            0 <= i < m && 0 <= j < self.methods@[i].param_types@.len()
                ==> self.methods@[i].param_types@[j].refs_below(n)
    }
}

impl TypeModel {
    /// The type with each generic parameter numbered `k` replaced by
    /// `generics[k]`, and by `Void` where the list has no such entry.
    pub open spec fn substitute(self, generics: Seq<TypeModel>) -> TypeModel
        decreases self,
    {
        match self {
            TypeModel::GenericParam(k) => if (k as int) < generics.len() {
                generics[k as int]
            } else {
                TypeModel::Void
            },
            TypeModel::TypeDef(i, args) => TypeModel::TypeDef(i, args.substitute(generics)),
            TypeModel::MutPtr(k, n) => TypeModel::MutPtr(Box::new((*k).substitute(generics)), n),
            TypeModel::ConstPtr(k, n) => TypeModel::ConstPtr(Box::new((*k).substitute(generics)), n),
            TypeModel::Win32Array(k, n) => TypeModel::Win32Array(
                Box::new((*k).substitute(generics)),
                n,
            ),
            TypeModel::WinrtArray(k) => TypeModel::WinrtArray(Box::new((*k).substitute(generics))),
            TypeModel::WinrtArrayRef(k) => TypeModel::WinrtArrayRef(
                Box::new((*k).substitute(generics)),
            ),
            TypeModel::ConstRef(k) => TypeModel::ConstRef(Box::new((*k).substitute(generics))),
            TypeModel::PrimitiveOrEnum(k, e) => TypeModel::PrimitiveOrEnum(
                Box::new((*k).substitute(generics)),
                Box::new((*e).substitute(generics)),
            ),
            _ => self,
        }
    }

    /// Substituting types that name only definitions below `n` keeps a type
    /// that does so.
    pub proof fn lemma_substitute_refs_below(self, generics: Seq<TypeModel>, n: nat)
        requires
            self.refs_below(n),
            forall|i: int| 0 <= i < generics.len() ==> #[trigger] generics[i].refs_below(n),
        ensures
            self.substitute(generics).refs_below(n),
        decreases self,
    {
        match self {
            TypeModel::TypeDef(_, args) => args.lemma_substitute_refs_below(generics, n),
            TypeModel::MutPtr(k, _) => (*k).lemma_substitute_refs_below(generics, n),
            TypeModel::ConstPtr(k, _) => (*k).lemma_substitute_refs_below(generics, n),
            TypeModel::Win32Array(k, _) => (*k).lemma_substitute_refs_below(generics, n),
            TypeModel::WinrtArray(k) => (*k).lemma_substitute_refs_below(generics, n),
            TypeModel::WinrtArrayRef(k) => (*k).lemma_substitute_refs_below(generics, n),
            TypeModel::ConstRef(k) => (*k).lemma_substitute_refs_below(generics, n),
            TypeModel::PrimitiveOrEnum(k, e) => {
                (*k).lemma_substitute_refs_below(generics, n);
                (*e).lemma_substitute_refs_below(generics, n);
            },
            _ => {},
        }
    }

    /// The type with its generic parameters replaced (see `substitute`).
    pub fn substitute_generics(&self, generics: &Vec<TypeModel>) -> (r: TypeModel)
        ensures
            r == self.substitute(generics@),
        decreases self,
    {
        match self {
            TypeModel::GenericParam(k) => {
                if (*k as usize) < generics.len() {
                    generics[*k as usize].copy()
                } else {
                    TypeModel::Void
                }
            },
            TypeModel::TypeDef(i, args) => TypeModel::TypeDef(*i, args.substitute_generics(generics)),
            TypeModel::MutPtr(k, n) => TypeModel::MutPtr(Box::new((**k).substitute_generics(generics)), *n),
            TypeModel::ConstPtr(k, n) => TypeModel::ConstPtr(
                Box::new((**k).substitute_generics(generics)),
                *n,
            ),
            TypeModel::Win32Array(k, n) => TypeModel::Win32Array(
                Box::new((**k).substitute_generics(generics)),
                *n,
            ),
            TypeModel::WinrtArray(k) => TypeModel::WinrtArray(Box::new((**k).substitute_generics(generics))),
            TypeModel::WinrtArrayRef(k) => TypeModel::WinrtArrayRef(
                Box::new((**k).substitute_generics(generics)),
            ),
            TypeModel::ConstRef(k) => TypeModel::ConstRef(Box::new((**k).substitute_generics(generics))),
            TypeModel::PrimitiveOrEnum(k, e) => TypeModel::PrimitiveOrEnum(
                Box::new((**k).substitute_generics(generics)),
                Box::new((**e).substitute_generics(generics)),
            ),
            _ => self.copy(),
        }
    }
}

impl TypeModel {
    /// Whether the type names only definitions below `n` and every pointer has
    /// at least one level of indirection.
    pub fn check_refs_below(&self, n: usize) -> (r: bool)
        ensures
            r == self.refs_below(n as nat),
        decreases self,
    {
        match self {
            TypeModel::TypeDef(i, args) => *i < n && args.check_refs_below(n),
            TypeModel::MutPtr(k, c) => *c >= 1 && (**k).check_refs_below(n),
            TypeModel::ConstPtr(k, c) => *c >= 1 && (**k).check_refs_below(n),
            TypeModel::Win32Array(k, _) => (**k).check_refs_below(n),
            TypeModel::WinrtArray(k) => (**k).check_refs_below(n),
            TypeModel::WinrtArrayRef(k) => (**k).check_refs_below(n),
            TypeModel::ConstRef(k) => (**k).check_refs_below(n),
            TypeModel::PrimitiveOrEnum(k, e) => (**k).check_refs_below(n) && (**e).check_refs_below(
                n,
            ),
            _ => true,
        }
    }
}

fn all_refs_below(types: &Vec<TypeModel>, n: usize) -> (r: bool)
    ensures
        r == forall|j: int| 0 <= j < types@.len() ==> #[trigger] types@[j].refs_below(n as nat),
{
    let mut j: usize = 0;
    while j < types.len()
        invariant
            0 <= j <= types@.len(),
            forall|x: int| 0 <= x < j ==> #[trigger] types@[x].refs_below(n as nat),
        decreases types@.len() - j,
    {
        if !types[j].check_refs_below(n) {
            return false;
        }
        j += 1;
    }
    true
}

fn all_below(positions: &Vec<usize>, n: usize) -> (r: bool)
    ensures
        r == forall|j: int| 0 <= j < positions@.len() ==> #[trigger] positions@[j] < n,
{
    let mut j: usize = 0;
    while j < positions.len()
        invariant
            0 <= j <= positions@.len(),
            forall|x: int| 0 <= x < j ==> #[trigger] positions@[x] < n,
        decreases positions@.len() - j,
    {
        if positions[j] >= n {
            return false;
        }
        j += 1;
    }
    true
}

impl Metadata {
    /// Whether every position and type in the records refers to an existing
    /// record (see `wf`).
    pub fn is_well_formed(&self) -> (r: bool)
        ensures
            r == self.wf(),
    {
        let n = self.type_defs.len();
        let m = self.methods.len();
        let mut i: usize = 0;
        while i < n
            invariant
                n == self.type_defs@.len(),
                m == self.methods@.len(),
                0 <= i <= n,
                forall|x: int, j: int|
                    #![trigger self.type_defs@[x].fields@[j]]
                    0 <= x < i && 0 <= j < self.type_defs@[x].fields@.len()
                        ==> self.type_defs@[x].fields@[j].refs_below(n as nat),
                forall|x: int, j: int|
                    #![trigger self.type_defs@[x].same_name@[j]]
                    0 <= x < i && 0 <= j < self.type_defs@[x].same_name@.len()
                        ==> self.type_defs@[x].same_name@[j] < n,
                forall|x: int, j: int|
                    #![trigger self.type_defs@[x].methods@[j]]
                    0 <= x < i && 0 <= j < self.type_defs@[x].methods@.len()
                        ==> self.type_defs@[x].methods@[j] < m,
            decreases n - i,
        {
            let d = &self.type_defs[i];
            if !all_refs_below(&d.fields, n) {
                return false;
            }
            if !all_below(&d.same_name, n) {
                return false;
            }
            if !all_below(&d.methods, m) {
                return false;
            }
            i += 1;
        }
        let p = self.params.len();
        let mut i: usize = 0;
        while i < m
            invariant
                n == self.type_defs@.len(),
                m == self.methods@.len(),
                p == self.params@.len(),
                0 <= i <= m,
                forall|x: int, j: int|
                    #![trigger self.type_defs@[x].fields@[j]]
                    0 <= x < n && 0 <= j < self.type_defs@[x].fields@.len()
                        ==> self.type_defs@[x].fields@[j].refs_below(n as nat),
                forall|x: int, j: int|
                    #![trigger self.type_defs@[x].same_name@[j]]
                    0 <= x < n && 0 <= j < self.type_defs@[x].same_name@.len()
                        ==> self.type_defs@[x].same_name@[j] < n,
                forall|x: int, j: int|
                    #![trigger self.type_defs@[x].methods@[j]]
                    0 <= x < n && 0 <= j < self.type_defs@[x].methods@.len()
                        ==> self.type_defs@[x].methods@[j] < m,
                forall|x: int| #![trigger self.methods@[x]] 0 <= x < i ==> self.methods@[x].return_type.refs_below(n as nat),
                forall|x: int, j: int|
                    #![trigger self.methods@[x].param_types@[j]]
                    0 <= x < i && 0 <= j < self.methods@[x].param_types@.len()
                        ==> self.methods@[x].param_types@[j].refs_below(n as nat),
                forall|x: int, j: int|
                    #![trigger self.methods@[x].params@[j]]
                    0 <= x < i && 0 <= j < self.methods@[x].params@.len()
                        ==> self.methods@[x].params@[j] < p,
            decreases m - i,
        {
            let me = &self.methods[i];
            if !me.return_type.check_refs_below(n) {
                assert(!self.methods@[i as int].return_type.refs_below(n as nat));
                return false;
            }
            if !all_refs_below(&me.param_types, n) {
                return false;
            }
            if !all_below(&me.params, p) {
                return false;
            }
            i += 1;
        }
        true
    }
}


/// Making a type `const`, or its pointer `const`, a second time changes
/// nothing.
pub proof fn law_const_forms_are_stable(t: TypeModel)
    ensures
        t.spec_to_const_type().spec_to_const_type() == t.spec_to_const_type(),
        t.spec_to_const_ptr().spec_to_const_ptr() == t.spec_to_const_ptr(),
    decreases t,
{
    match t {
        TypeModel::MutPtr(k, _) => law_const_forms_are_stable(*k),
        TypeModel::ConstPtr(k, _) => law_const_forms_are_stable(*k),
        _ => {},
    }
}

} // verus!
