//! What deriving `Compile` gives: which items can derive it; for a struct,
//! its descriptor, a structure of the field types under the field names,
//! and its compiled form, a new local with each field stored at its packed
//! offset; for an enum, the descriptor of its `repr` type.
use vstd::prelude::*;
use crate::function::{Insn, UncompiledFunction, Value, ValueInfo, ValueOrigin};
use crate::kind::KIND_STRUCT;
use crate::types::{names_are_c_strings, Abi, Ty, Type};
use crate::typecs::{is_type_name, names_type, type_of_name};

verus! {

/// The shape of an item that `Compile` is derived for.
pub enum DeriveItem {
    /// A struct.
    Struct,
    /// An enum, with the type that its `repr` attribute names, if it has
    /// one.
    Enum(Option<String>),
    /// Any other item.
    Other,
}

/// Why `Compile` cannot be derived for an item.
#[derive(Debug)]
pub enum DeriveError {
    /// Only structs, and enums with a `repr` of a type with a descriptor,
    /// can be compatible with LibJIT.
    BadItem,
}

/// What deriving gives for an item that can derive `Compile`.
pub enum Derived {
    /// A struct: its descriptor is made of its fields, and it compiles
    /// field by field.
    Struct,
    /// An enum: its descriptor is that of its `repr` type, and it compiles
    /// as its value cast to that type.
    Enum(Type),
}

/// Whether `r` is what deriving `Compile` gives for `item`.
pub open spec fn derived(item: DeriveItem, r: Result<Derived, DeriveError>) -> bool {
    match item {
        DeriveItem::Struct => r matches Ok(Derived::Struct),
        DeriveItem::Enum(Some(name)) => if is_type_name(name@) {
            r matches Ok(Derived::Enum(t)) && names_type(name@, t)
        } else {
            r matches Err(DeriveError::BadItem)
        },
        DeriveItem::Enum(None) => r matches Err(DeriveError::BadItem),
        DeriveItem::Other => r matches Err(DeriveError::BadItem),
    }
}

/// Decide what deriving `Compile` gives for an item: a struct derives it
/// from its fields, an enum with a `repr` derives it from that type, and any
/// other item is refused.
pub fn derive_item(item: &DeriveItem) -> (r: Result<Derived, DeriveError>)
    ensures
        derived(*item, r),
{
    match item {
        DeriveItem::Struct => Ok(Derived::Struct),
        DeriveItem::Enum(Some(name)) => match type_of_name(name.as_str()) {
            Some(t) => Ok(Derived::Enum(t)),
            None => Err(DeriveError::BadItem),
        },
        DeriveItem::Enum(None) => Err(DeriveError::BadItem),
        DeriveItem::Other => Err(DeriveError::BadItem),
    }
}

/// The name given to the field at `i` by `names`, if any.
pub open spec fn given_name(names: Seq<&str>, i: int) -> Option<Seq<char>> {
    if i < names.len() {
        Some(names[i]@)
    } else {
        None
    }
}

/// The descriptor of a struct with the field types `field_types`, the first
/// of which are named by `names`.
pub fn derive_struct_type(field_types: &[Type], names: &[&str]) -> (r: Type)
    requires
        field_types@.len() <= u32::MAX,
        names_are_c_strings(names@),
    ensures
        r.kind_code() == KIND_STRUCT,
        r.spec_abi() == Abi::CDecl,
        r.sub_type() is None,
        r.explicit_layout() is None,
        r.num_components() == field_types@.len(),
        forall|i: int| 0 <= i < field_types@.len() ==> #[trigger] r.component_type(i) == field_types@[i],
        forall|i: int| 0 <= i < field_types@.len() ==> #[trigger] r.component_name(i) == given_name(names@, i),
{
    let mut refs: Vec<&Ty> = Vec::new();
    let mut i: usize = 0;
    while i < field_types.len()
        invariant
            i <= field_types@.len(),
            refs@.len() == i,
            forall|j: int| 0 <= j < i ==> *refs@[j] == field_types@[j],
        decreases field_types@.len() - i,
    {
        refs.push(&field_types[i]);
        i = i + 1;
    }
    let mut ty = Type::new_struct(refs.as_mut_slice());
    let ghost unnamed = ty;
    ty.set_names(names);
    proof {
        assert forall|i: int| 0 <= i < field_types@.len() implies #[trigger] ty.component_type(i) == field_types@[i] by {
            assert(ty.component_type(i) == unnamed.component_type(i));
        }
        assert forall|i: int| 0 <= i < field_types@.len() implies #[trigger] ty.component_name(i) == given_name(names@, i) by {
            assert(ty.component_type(i) == unnamed.component_type(i));
            assert(unnamed.component_name(i) is None);
        }
        assert(ty.num_components() == field_types@.len());
    }
    ty
}

/// The offset of the field at `i` of a packed struct whose fields have the
/// sizes `sizes`: the sum of the sizes before it.
pub open spec fn packed_offset(sizes: Seq<usize>, i: int) -> int
    decreases i,
{
    if i <= 0 {
        0
    } else {
        packed_offset(sizes, i - 1) + sizes[i - 1]
    }
}

/// Whether the offsets of every field fit in a `usize`.
pub open spec fn offsets_fit(sizes: Seq<usize>) -> bool {
    forall|i: int| 0 <= i < sizes.len() ==> #[trigger] packed_offset(sizes, i) <= usize::MAX
}

/// A packed struct being compiled: the local that holds it, the sizes of
/// its fields, and how many of them are stored so far. Each field is
/// compiled by the caller and then stored at its packed offset, in order,
/// as the derived `compile` does.
pub struct PackedStores {
    value: Value,
    sizes: Vec<usize>,
    stored: usize,
    offset: usize,
}

impl PackedStores {
    /// The local that holds the struct.
    pub closed spec fn local(&self) -> Value {
        self.value
    }

    /// The sizes of the fields, in order.
    pub closed spec fn field_sizes(&self) -> Seq<usize> {
        self.sizes@
    }

    /// How many fields are stored so far.
    pub closed spec fn count(&self) -> nat {
        self.stored as nat
    }

    /// The stored count is within the fields, the offset is that of the
    /// next field, and every offset fits in a `usize`.
    pub closed spec fn wf(&self) -> bool {
        &&& self.stored <= self.sizes@.len()
        &&& self.stored < self.sizes@.len() ==> self.offset == packed_offset(self.sizes@, self.stored as int)
        &&& offsets_fit(self.sizes@)
    }

    /// Begin compiling a packed struct of the type `ty` whose fields have
    /// the sizes `sizes`: a new local of that type, with no field stored.
    pub fn begin(func: &mut UncompiledFunction, ty: &Ty, sizes: Vec<usize>) -> (r: PackedStores)
        requires
            old(func).wf(),
            offsets_fit(sizes@),
        ensures
            final(func).wf(),
            final(func).added_value(
                *old(func),
                r.local(),
                ValueInfo { ty: Some(*ty), origin: ValueOrigin::Local, addressable: false },
            ),
            final(func).insns() == old(func).insns(),
            r.wf(),
            r.field_sizes() == sizes@,
            r.count() == 0,
    {
        let value = Value::new(func, ty);
        PackedStores { value, sizes, stored: 0, offset: 0 }
    }

    /// The local that holds the struct.
    pub fn get_local(&self) -> (r: Value)
        ensures
            r == self.local(),
    {
        self.value
    }

    /// Store the next field, compiled into `field`, at its packed offset:
    /// the sum of the sizes of the fields before it.
    pub fn store_next(&mut self, func: &mut UncompiledFunction, field: Value)
        requires
            old(self).wf(),
            old(func).wf(),
            old(func).holds(old(self).local()),
            old(func).holds(field),
            old(self).count() < old(self).field_sizes().len(),
        ensures
            final(func).wf(),
            final(func).recorded(
                *old(func),
                Insn::StoreRelative(
                    old(self).local(),
                    packed_offset(old(self).field_sizes(), old(self).count() as int) as usize,
                    field,
                ),
            ),
            final(self).wf(),
            final(self).local() == old(self).local(),
            final(self).field_sizes() == old(self).field_sizes(),
            final(self).count() == old(self).count() + 1,
    {
        func.insn_store_relative(self.value, self.offset, field);
        if self.stored < self.sizes.len() - 1 {
            proof {
                assert(packed_offset(self.sizes@, self.stored as int + 1) <= usize::MAX);
            }
            self.offset = self.offset + self.sizes[self.stored];
        }
        self.stored = self.stored + 1;
    }
}

} // verus!
