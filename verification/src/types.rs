//! The types of the language.

use crate::text::{decimal, decimal_text};
use vstd::prelude::*;
use vstd::string::*;

verus! {

/// The ten integer types.
#[derive(Clone, Copy, Debug, PartialEq, Eq, Structural)]
pub enum IntegerKind {
    U8,
    U16,
    U32,
    U64,
    U128,
    I8,
    I16,
    I32,
    I64,
    I128,
}

impl IntegerKind {
    /// The size of the least value of the kind: zero for an unsigned kind.
    pub open spec fn spec_negative_limit(self) -> u128 {
        match self {
            IntegerKind::I8 => 0x80,
            IntegerKind::I16 => 0x8000,
            IntegerKind::I32 => 0x8000_0000,
            IntegerKind::I64 => 0x8000_0000_0000_0000,
            IntegerKind::I128 => 0x8000_0000_0000_0000_0000_0000_0000_0000,
            _ => 0,
        }
    }

    /// The greatest value of the kind.
    pub open spec fn spec_positive_limit(self) -> u128 {
        match self {
            IntegerKind::U8 => 0xff,
            IntegerKind::U16 => 0xffff,
            IntegerKind::U32 => 0xffff_ffff,
            IntegerKind::U64 => 0xffff_ffff_ffff_ffff,
            IntegerKind::U128 => 0xffff_ffff_ffff_ffff_ffff_ffff_ffff_ffff,
            IntegerKind::I8 => 0x7f,
            IntegerKind::I16 => 0x7fff,
            IntegerKind::I32 => 0x7fff_ffff,
            IntegerKind::I64 => 0x7fff_ffff_ffff_ffff,
            IntegerKind::I128 => 0x7fff_ffff_ffff_ffff_ffff_ffff_ffff_ffff,
        }
    }

    /// Whether `value` is a value of the kind.
    pub open spec fn holds(self, value: int) -> bool {
        -(self.spec_negative_limit() as int) <= value <= self.spec_positive_limit() as int
    }

    /// The keyword of the kind.
    pub open spec fn spec_keyword(self) -> Seq<char> {
        match self {
            IntegerKind::U8 => "u8"@,
            IntegerKind::U16 => "u16"@,
            IntegerKind::U32 => "u32"@,
            IntegerKind::U64 => "u64"@,
            IntegerKind::U128 => "u128"@,
            IntegerKind::I8 => "i8"@,
            IntegerKind::I16 => "i16"@,
            IntegerKind::I32 => "i32"@,
            IntegerKind::I64 => "i64"@,
            IntegerKind::I128 => "i128"@,
        }
    }

    #[verifier::when_used_as_spec(spec_negative_limit)]
    pub fn negative_limit(self) -> (limit: u128)
        ensures
            limit == self.spec_negative_limit(),
    {
        match self {
            IntegerKind::I8 => 0x80,
            IntegerKind::I16 => 0x8000,
            IntegerKind::I32 => 0x8000_0000,
            IntegerKind::I64 => 0x8000_0000_0000_0000,
            IntegerKind::I128 => 0x8000_0000_0000_0000_0000_0000_0000_0000,
            _ => 0,
        }
    }

    #[verifier::when_used_as_spec(spec_positive_limit)]
    pub fn positive_limit(self) -> (limit: u128)
        ensures
            limit == self.spec_positive_limit(),
    {
        match self {
            IntegerKind::U8 => 0xff,
            IntegerKind::U16 => 0xffff,
            IntegerKind::U32 => 0xffff_ffff,
            IntegerKind::U64 => 0xffff_ffff_ffff_ffff,
            IntegerKind::U128 => 0xffff_ffff_ffff_ffff_ffff_ffff_ffff_ffff,
            IntegerKind::I8 => 0x7f,
            IntegerKind::I16 => 0x7fff,
            IntegerKind::I32 => 0x7fff_ffff,
            IntegerKind::I64 => 0x7fff_ffff_ffff_ffff,
            IntegerKind::I128 => 0x7fff_ffff_ffff_ffff_ffff_ffff_ffff_ffff,
        }
    }

    pub fn keyword(self) -> (keyword: &'static str)
        ensures
            keyword@ == self.spec_keyword(),
    {
        match self {
            IntegerKind::U8 => "u8",
            IntegerKind::U16 => "u16",
            IntegerKind::U32 => "u32",
            IntegerKind::U64 => "u64",
            IntegerKind::U128 => "u128",
            IntegerKind::I8 => "i8",
            IntegerKind::I16 => "i16",
            IntegerKind::I32 => "i32",
            IntegerKind::I64 => "i64",
            IntegerKind::I128 => "i128",
        }
    }
}

/// A type of the language.
#[derive(Debug, PartialEq, Eq)]
pub enum Type {
    Boolean,
    Address,
    Field,
    Group,
    Scalar,
    Integer(IntegerKind),
    /// An array of elements of one type, with its dimensions, outermost first.
    Array(Box<Type>, Vec<usize>),
    Tuple(Vec<Type>),
    Circuit(String),
    SelfType,
}

/// What a `Type` stands for.
pub enum TypeView {
    Boolean,
    Address,
    Field,
    Group,
    Scalar,
    Integer(IntegerKind),
    Array(Box<TypeView>, Seq<usize>),
    Tuple(Seq<TypeView>),
    Circuit(Seq<char>),
    SelfType,
}

/// The views of a sequence of types.
pub open spec fn types_view(types: Seq<Type>) -> Seq<TypeView> {
    Seq::new(types.len(), |i: int| types[i]@)
}

impl Type {
    pub open spec fn model(&self) -> TypeView
        decreases self,
    {
        match self {
            Type::Boolean => TypeView::Boolean,
            Type::Address => TypeView::Address,
            Type::Field => TypeView::Field,
            Type::Group => TypeView::Group,
            Type::Scalar => TypeView::Scalar,
            Type::Integer(kind) => TypeView::Integer(*kind),
            Type::Array(element, dimensions) => TypeView::Array(
                Box::new(element.model()),
                dimensions@,
            ),
            Type::Tuple(types) => TypeView::Tuple(
                Seq::new(
                    types.len() as nat,
                    |i: int|
                        if 0 <= i < types.len() {
                            types[i].model()
                        } else {
                            TypeView::Boolean
                        },
                ),
            ),
            Type::Circuit(name) => TypeView::Circuit(name@),
            Type::SelfType => TypeView::SelfType,
        }
    }

    /// A copy of the type.
    pub fn duplicate(&self) -> (copy: Type)
        ensures
            copy@ == self@,
        decreases self,
    {
        match self {
            Type::Boolean => Type::Boolean,
            Type::Address => Type::Address,
            Type::Field => Type::Field,
            Type::Group => Type::Group,
            Type::Scalar => Type::Scalar,
            Type::Integer(kind) => Type::Integer(*kind),
            Type::Array(element, dimensions) => {
                let mut copy: Vec<usize> = Vec::new();
                let mut i: usize = 0;
                while i < dimensions.len()
                    invariant
                        0 <= i <= dimensions.len(),
                        copy@ == dimensions@.subrange(0, i as int),
                    decreases dimensions.len() - i,
                {
                    copy.push(dimensions[i]);
                    assert(copy@ =~= dimensions@.subrange(0, i + 1));
                    i += 1;
                }
                assert(dimensions@.subrange(0, i as int) =~= dimensions@);
                Type::Array(Box::new(element.duplicate()), copy)
            },
            Type::Tuple(types) => {
                let mut copy: Vec<Type> = Vec::new();
                let mut i: usize = 0;
                while i < types.len()
                    invariant
                        0 <= i <= types.len(),
                        self matches Type::Tuple(x) && x == types,
                        copy.len() == i,
                        forall|j: int| 0 <= j < i ==> copy[j]@ == types[j]@,
                    decreases types.len() - i,
                {
                    copy.push(types[i].duplicate());
                    i += 1;
                }
                let result = Type::Tuple(copy);
                assert(result@ == self@) by {
                    assert(result@->Tuple_0 =~= self@->Tuple_0);
                }
                result
            },
            Type::Circuit(name) => Type::Circuit(name.clone()),
            Type::SelfType => Type::SelfType,
        }
    }

    /// The type of the elements of an array of this element type and these dimensions: an
    /// array of the remaining dimensions where more than one is left, else the element type.
    pub fn inner_dimension(&self, dimensions: &Vec<usize>) -> (inner: Type)
        ensures
            inner@ == inner_dimension(self@, dimensions@),
    {
        if dimensions.len() > 1 {
            let mut rest: Vec<usize> = Vec::new();
            let mut i: usize = 1;
            while i < dimensions.len()
                invariant
                    1 <= i <= dimensions.len(),
                    rest@ == dimensions@.subrange(1, i as int),
                decreases dimensions.len() - i,
            {
                rest.push(dimensions[i]);
                assert(rest@ =~= dimensions@.subrange(1, i + 1));
                i += 1;
            }
            assert(dimensions@.subrange(1, i as int) =~= dimensions@.skip(1));
            Type::Array(Box::new(self.duplicate()), rest)
        } else {
            self.duplicate()
        }
    }
}

impl View for Type {
    type V = TypeView;

    open spec fn view(&self) -> TypeView {
        self.model()
    }
}

/// The element type of an array type with its leading dimension taken away.
pub open spec fn inner_dimension(element: TypeView, dimensions: Seq<usize>) -> TypeView {
    if dimensions.len() > 1 {
        TypeView::Array(Box::new(element), dimensions.skip(1))
    } else {
        element
    }
}

/// A copy of a list of types.
pub fn duplicate_types(types: &Vec<Type>) -> (copy: Vec<Type>)
    ensures
        types_view(copy@) == types_view(types@),
{
    let mut copy: Vec<Type> = Vec::new();
    let mut i: usize = 0;
    while i < types.len()
        invariant
            0 <= i <= types.len(),
            copy.len() == i,
            forall|j: int| 0 <= j < i ==> copy[j]@ == types[j]@,
        decreases types.len() - i,
    {
        copy.push(types[i].duplicate());
        i += 1;
    }
    assert(types_view(copy@) =~= types_view(types@));
    copy
}

/// The first `count` dimensions as written, with a comma and a blank between neighbours.
pub open spec fn joined_dimensions(dimensions: Seq<usize>, count: nat) -> Seq<char>
    decreases count,
{
    if count == 0 || count > dimensions.len() {
        Seq::empty()
    } else if count == 1 {
        decimal(dimensions[0] as nat)
    } else {
        joined_dimensions(dimensions, (count - 1) as nat) + ", "@ + decimal(
            dimensions[count - 1] as nat,
        )
    }
}

/// The first `count` types as written, with a comma and a blank between neighbours.
pub open spec fn joined_types(types: Seq<TypeView>, count: nat) -> Seq<char>
    decreases types, count,
{
    if count == 0 || count > types.len() {
        Seq::empty()
    } else if count == 1 {
        types[0].text()
    } else {
        joined_types(types, (count - 1) as nat) + ", "@ + types[count - 1].text()
    }
}

impl TypeView {
    /// The type as a diagnostic shows it.
    pub open spec fn text(self) -> Seq<char>
        decreases self, 0nat,
    {
        match self {
            TypeView::Boolean => "bool"@,
            TypeView::Address => "address"@,
            TypeView::Field => "field"@,
            TypeView::Group => "group"@,
            TypeView::Scalar => "scalar"@,
            TypeView::Integer(kind) => kind.spec_keyword(),
            TypeView::Array(element, dimensions) => "["@ + element.text() + "; ("@
                + joined_dimensions(dimensions, dimensions.len()) + ")]"@,
            TypeView::Tuple(types) => "("@ + joined_types(types, types.len()) + ")"@,
            TypeView::Circuit(name) => name,
            TypeView::SelfType => "Self"@,
        }
    }
}

/// Writes the dimensions of an array type.
fn join_dimensions(dimensions: &Vec<usize>) -> (text: String)
    ensures
        text@ == joined_dimensions(dimensions@, dimensions.len() as nat),
{
    let mut text = String::new();
    let mut i: usize = 0;
    while i < dimensions.len()
        invariant
            0 <= i <= dimensions.len(),
            text@ == joined_dimensions(dimensions@, i as nat),
        decreases dimensions.len() - i,
    {
        let ghost before = text@;
        if i > 0 {
            text.append(", ");
        }
        text.append(decimal_text(dimensions[i] as u128).as_str());
        proof {
            if i > 0 {
                assert(text@ =~= before + ", "@ + decimal(dimensions[i as int] as nat));
            } else {
                assert(text@ =~= decimal(dimensions[0] as nat));
            }
        }
        i += 1;
    }
    text
}

/// Writes the types of a tuple type.
fn join_types(types: &Vec<Type>) -> (text: String)
    ensures
        text@ == joined_types(types_view(types@), types.len() as nat),
    decreases types,
{
    let mut text = String::new();
    let mut i: usize = 0;
    let ghost views = types_view(types@);
    while i < types.len()
        invariant
            0 <= i <= types.len(),
            views == types_view(types@),
            text@ == joined_types(views, i as nat),
        decreases types.len() - i,
    {
        let ghost before = text@;
        if i > 0 {
            text.append(", ");
        }
        text.append(types[i].to_string().as_str());
        proof {
            assert(views[i as int] == types[i as int]@);
            if i > 0 {
                assert(text@ =~= before + ", "@ + views[i as int].text());
            } else {
                assert(before =~= Seq::<char>::empty());
                assert(text@ =~= views[0].text());
            }
        }
        i += 1;
    }
    text
}

impl Type {
    /// The type as a diagnostic shows it.
    pub fn to_string(&self) -> (text: String)
        ensures
            text@ == self@.text(),
        decreases self,
    {
        match self {
            Type::Boolean => String::from_str("bool"),
            Type::Address => String::from_str("address"),
            Type::Field => String::from_str("field"),
            Type::Group => String::from_str("group"),
            Type::Scalar => String::from_str("scalar"),
            Type::Integer(kind) => String::from_str(kind.keyword()),
            Type::Array(element, dimensions) => {
                let mut text = String::from_str("[");
                text.append(element.to_string().as_str());
                text.append("; (");
                text.append(join_dimensions(dimensions).as_str());
                text.append(")]");
                text
            },
            Type::Tuple(types) => {
                let mut text = String::from_str("(");
                text.append(join_types(types).as_str());
                text.append(")");
                assert(self@->Tuple_0 =~= types_view(types@));
                text
            },
            Type::Circuit(name) => name.clone(),
            Type::SelfType => String::from_str("Self"),
        }
    }
}

} // verus!
