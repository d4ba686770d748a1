//! The data types that function signatures are written in.

use vstd::prelude::*;

verus! {

/// The numeric types.
#[derive(Clone, Copy, Debug, PartialEq, Eq, Structural)]
pub enum NumberDataType {
    UInt8,
    UInt16,
    UInt32,
    UInt64,
    Int8,
    Int16,
    Int32,
    Int64,
    Float32,
    Float64,
}

/// The type of a function argument or result.
#[derive(Debug)]
pub enum DataType {
    String,
    Number(NumberDataType),
    Nullable(Box<DataType>),
    Array(Box<DataType>),
    Tuple(Vec<DataType>),
    /// A type that no function here looks into, by its name.
    Other(String),
}

/// What a [`DataType`] is, with its nested lists as sequences.
pub ghost enum TypeView {
    String,
    Number(NumberDataType),
    Nullable(Box<TypeView>),
    Array(Box<TypeView>),
    Tuple(Seq<TypeView>),
    Other(Seq<char>),
}

impl View for DataType {
    type V = TypeView;

    open spec fn view(&self) -> TypeView
        decreases self,
    {
        match self {
            DataType::String => TypeView::String,
            DataType::Number(n) => TypeView::Number(*n),
            DataType::Nullable(t) => TypeView::Nullable(Box::new((**t)@)),
            DataType::Array(t) => TypeView::Array(Box::new((**t)@)),
            DataType::Tuple(ts) => TypeView::Tuple(
                Seq::new(
                    ts@.len(),
                    |i: int|
                        if 0 <= i < ts@.len() {
                            ts@[i]@
                        } else {
                            TypeView::String
                        },
                ),
            ),
            DataType::Other(name) => TypeView::Other(name@),
        }
    }
}

/// The types of a list of arguments.
pub open spec fn types_view(types: Seq<DataType>) -> Seq<TypeView> {
    types.map_values(|t: DataType| t@)
}

impl DataType {
    /// A second value of the same type.
    pub fn copy(&self) -> (r: DataType)
        ensures
            r@ == self@,
        decreases self,
    {
        match self {
            DataType::String => DataType::String,
            DataType::Number(n) => DataType::Number(*n),
            DataType::Nullable(t) => DataType::Nullable(Box::new(t.copy())),
            DataType::Array(t) => DataType::Array(Box::new(t.copy())),
            DataType::Tuple(ts) => {
                let mut copies: Vec<DataType> = Vec::new();
                for i in 0..ts.len()
                    invariant
                        *self == DataType::Tuple(*ts),
                        copies@.len() == i,
                        forall|k: int| 0 <= k < i ==> (#[trigger] copies@[k])@ == ts@[k]@,
                {
                    assert(decreases_to!(*self => self->Tuple_0@[i as int]));
                    copies.push(ts[i].copy());
                }
                let r = DataType::Tuple(copies);
                assert(r@->Tuple_0 =~= self@->Tuple_0);
                r
            },
            DataType::Other(name) => DataType::Other(name.clone()),
        }
    }
}

/// `count` times the type of double-precision numbers.
pub fn float64s(count: usize) -> (r: Vec<DataType>)
    ensures
        types_view(r@) == float64s_view(count as nat),
{
    let mut types: Vec<DataType> = Vec::new();
    for i in 0..count
        invariant
            types@.len() == i,
            forall|k: int| 0 <= k < i ==> (#[trigger] types@[k])@ == TypeView::Number(NumberDataType::Float64),
    {
        types.push(DataType::Number(NumberDataType::Float64));
    }
    assert(types_view(types@) =~= float64s_view(count as nat));
    types
}

/// A list of `count` times the type of double-precision numbers.
pub open spec fn float64s_view(count: nat) -> Seq<TypeView> {
    Seq::new(count, |i: int| TypeView::Number(NumberDataType::Float64))
}

/// What is presumed of a function besides its types.
#[derive(Clone, Copy, Debug, PartialEq, Eq, Structural)]
pub enum FunctionProperty {
    /// Nothing out of the ordinary, which is the default.
    Ordinary,
    /// Something that no function here has.
    Special,
}

/// What a function tells beforehand of the values that it gives for some arguments.
#[derive(Clone, Copy, Debug, PartialEq, Eq, Structural)]
pub enum FunctionDomain {
    /// Any value of its result type may come out.
    Full,
    /// Nothing, because the evaluation may fail.
    MayThrow,
}

/// The name, the argument types, the result type and the property of a function.
#[derive(Debug)]
pub struct FunctionSignature {
    pub name: String,
    pub args_type: Vec<DataType>,
    pub return_type: DataType,
    pub property: FunctionProperty,
}

/// What a [`FunctionSignature`] says.
pub ghost struct SignatureView {
    pub name: Seq<char>,
    pub args_type: Seq<TypeView>,
    pub return_type: TypeView,
    pub property: FunctionProperty,
}

impl View for FunctionSignature {
    type V = SignatureView;

    open spec fn view(&self) -> SignatureView {
        SignatureView {
            name: self.name@,
            args_type: types_view(self.args_type@),
            return_type: self.return_type@,
            property: self.property,
        }
    }
}

/// The view of a type shows what the type is, and of nested types what they are.
pub proof fn law_view_shows_the_type(t: DataType)
    ensures
        match t {
            DataType::String => t@ == TypeView::String,
            DataType::Number(n) => t@ == TypeView::Number(n),
            DataType::Nullable(inner) => t@ == TypeView::Nullable(Box::new((*inner)@)),
            DataType::Array(inner) => t@ == TypeView::Array(Box::new((*inner)@)),
            DataType::Tuple(fields) => t@ is Tuple && t@->Tuple_0.len() == fields@.len()
                && forall|k: int|
                0 <= k < fields@.len() ==> t@->Tuple_0[k] == (#[trigger] fields@[k])@,
            DataType::Other(name) => t@ == TypeView::Other(name@),
        },
{
}

/// A copy is of the same type.
pub proof fn law_copy_is_of_the_same_type(t: DataType, r: DataType)
    requires
        call_ensures(DataType::copy, (&t,), r),
    ensures
        r@ == t@,
{
}

/// The list has as many types as asked for, and all are numbers of double precision.
pub proof fn law_all_are_float64s(count: usize, types: Vec<DataType>, k: int)
    requires
        call_ensures(float64s, (count,), types),
        0 <= k < types@.len(),
    ensures
        types@.len() == count,
        types@[k] == DataType::Number(NumberDataType::Float64),
{
    let views = types_view(types@);
    assert(views == float64s_view(count as nat));
    assert(views.len() == types@.len());
    assert(views[k] == types@[k]@);
    assert(types@[k]@ == TypeView::Number(NumberDataType::Float64));
}

} // verus!
