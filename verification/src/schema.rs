//! The schema of a record: its fields in declaration order, each required or
//! optional by the shape of its declared type.

use vstd::prelude::*;
use vstd::string::*;
use crate::views::{ints, lemma_ints_push, views};

verus! {

/// One argument between the angle brackets of a path segment.
#[derive(Debug, Clone, PartialEq, Eq)]
pub enum GenericArg {
    /// A type, by its text.
    Type(String),
    /// A lifetime, a constant, a binding or a constraint.
    Other,
}

/// What follows the identifier of a path segment.
#[derive(Debug, Clone, PartialEq, Eq)]
pub enum PathArguments {
    Absent,
    Angle(Vec<GenericArg>),
    Parenthesized,
}

#[derive(Debug, Clone, PartialEq, Eq)]
pub struct PathSegment {
    pub ident: String,
    pub arguments: PathArguments,
}

/// As much of the structure of a type as the classification reads.
#[derive(Debug, Clone, PartialEq, Eq)]
pub enum TypeShape {
    /// A path, such as `Option<String>` or `std::vec::Vec<u8>`.
    Path(Vec<PathSegment>),
    /// Any other type: a reference, a tuple, an array, ...
    Other,
}

/// The declared type of a field: its text and its shape.
#[derive(Debug, Clone, PartialEq, Eq)]
pub struct FieldType {
    pub text: String,
    pub shape: TypeShape,
}

/// A named field as it is declared.
#[derive(Debug, Clone, PartialEq, Eq)]
pub struct Field {
    pub name: String,
    pub ty: FieldType,
}

/// A field of the schema.
#[derive(Debug, Clone, PartialEq, Eq)]
pub struct FieldSpec {
    pub name: String,
    pub declared_type: String,
    pub required: bool,
    /// The type of the setter's argument: the declared type of a required
    /// field, the wrapped type of an optional one.
    pub value_type: String,
}

pub struct FieldSpecView {
    pub name: Seq<char>,
    pub declared_type: Seq<char>,
    pub required: bool,
    pub value_type: Seq<char>,
}

impl View for FieldSpec {
    type V = FieldSpecView;

    open spec fn view(&self) -> FieldSpecView {
        FieldSpecView {
            name: self.name@,
            declared_type: self.declared_type@,
            required: self.required,
            value_type: self.value_type@,
        }
    }
}

/// The fields of a record in declaration order.
#[derive(Debug, Clone, PartialEq, Eq)]
pub struct Schema {
    pub fields: Vec<FieldSpec>,
}

impl View for Schema {
    type V = Seq<FieldSpecView>;

    open spec fn view(&self) -> Seq<FieldSpecView> {
        views(self.fields@)
    }
}

/// The type that `wrapper` wraps: the single type argument of a path of one
/// segment named `wrapper`.
pub open spec fn wrapped_type(wrapper: Seq<char>, ty: FieldType) -> Option<Seq<char>> {
    match ty.shape {
        TypeShape::Path(segments) => {
            if segments@.len() == 1 && segments@[0].ident@ == wrapper {
                match segments@[0].arguments {
                    PathArguments::Angle(args) => {
                        if args@.len() == 1 {
                            match args@[0] {
                                GenericArg::Type(inner) => Some(inner@),
                                GenericArg::Other => None,
                            }
                        } else {
                            None
                        }
                    },
                    _ => None,
                }
            } else {
                None
            }
        },
        TypeShape::Other => None,
    }
}

/// A field is optional exactly if its declared type is `Option` around one
/// type; the setter then takes the wrapped type.
pub open spec fn classified(field: Field) -> FieldSpecView {
    match wrapped_type("Option"@, field.ty) {
        Some(inner) => FieldSpecView {
            name: field.name@,
            declared_type: field.ty.text@,
            required: false,
            value_type: inner,
        },
        None => FieldSpecView {
            name: field.name@,
            declared_type: field.ty.text@,
            required: true,
            value_type: field.ty.text@,
        },
    }
}

/// The schema of a list of declared fields.
pub open spec fn extracted(fields: Seq<Field>) -> Seq<FieldSpecView> {
    Seq::new(fields.len(), |i: int| classified(fields[i]))
}

/// The positions of the required fields (or of the optional ones), ascending.
/// A required field's place in this list is its index in the typestate vector.
pub open spec fn positions(fields: Seq<FieldSpecView>, required: bool) -> Seq<int>
    decreases fields.len(),
{
    if fields.len() == 0 {
        Seq::empty()
    } else if fields.last().required == required {
        positions(fields.drop_last(), required).push(fields.len() - 1)
    } else {
        positions(fields.drop_last(), required)
    }
}

/// The names of the fields at the given positions.
pub open spec fn names_at(fields: Seq<FieldSpecView>, at: Seq<int>) -> Seq<Seq<char>> {
    Seq::new(at.len(), |k: int| fields[at[k]].name)
}

/// No two fields have the same name.
pub open spec fn distinct_names(fields: Seq<FieldSpecView>) -> bool {
    forall|a: int, b: int|
        0 <= a < b < fields.len() ==> (#[trigger] fields[a]).name != (#[trigger] fields[b]).name
}

/// Whether the type marks an optional field: `Option` around exactly one
/// type.
pub fn is_option(ty: &FieldType) -> (b: bool)
    ensures
        b == (wrapped_type("Option"@, *ty) is Some),
{
    inner_type("Option", ty).is_some()
}

/// The type that `wrapper` wraps in `ty`, if `ty` is `wrapper` around one type.
pub fn inner_type<'a>(wrapper: &str, ty: &'a FieldType) -> (out: Option<&'a String>)
    ensures
        match out {
            Some(inner) => wrapped_type(wrapper@, *ty) == Some(inner@),
            None => wrapped_type(wrapper@, *ty) is None,
        },
{
    if let TypeShape::Path(segments) = &ty.shape {
        if segments.len() != 1 || segments[0].ident != wrapper.to_owned() {
            return None;
        }
        if let PathArguments::Angle(args) = &segments[0].arguments {
            if args.len() != 1 {
                return None;
            }
            if let GenericArg::Type(inner) = &args[0] {
                return Some(inner);
            }
        }
    }
    None
}

/// Makes a declared field a field of the schema, required or optional.
pub fn classify(field: &Field) -> (spec: FieldSpec)
    ensures
        spec@ == classified(*field),
{
    if is_option(&field.ty) {
        let inner = inner_type("Option", &field.ty).unwrap();
        FieldSpec {
            name: field.name.clone(),
            declared_type: field.ty.text.clone(),
            required: false,
            value_type: inner.clone(),
        }
    } else {
        FieldSpec {
            name: field.name.clone(),
            declared_type: field.ty.text.clone(),
            required: true,
            value_type: field.ty.text.clone(),
        }
    }
}

/// The schema of the declared fields, in their order.
pub fn extract_schema(fields: &Vec<Field>) -> (schema: Schema)
    ensures
        schema@ == extracted(fields@),
{
    let mut out: Vec<FieldSpec> = Vec::new();
    let mut i: usize = 0;
    while i < fields.len()
        invariant
            i <= fields.len(),
            out@.len() == i,
            forall|j: int| 0 <= j < i ==> (#[trigger] out@[j])@ == classified(fields@[j]),
        decreases fields.len() - i,
    {
        out.push(classify(&fields[i]));
        i += 1;
    }
    let schema = Schema { fields: out };
    assert(schema@ =~= extracted(fields@));
    schema
}

impl Schema {
    /// The positions of the required fields (`required` true) or of the
    /// optional ones, in declaration order.
    pub fn positions_of(&self, required: bool) -> (at: Vec<usize>)
        ensures
            ints(at@) == positions(self@, required),
    {
        let mut at: Vec<usize> = Vec::new();
        let mut i: usize = 0;
        assert(self@.take(0) =~= Seq::<FieldSpecView>::empty());
        assert(ints(at@) =~= Seq::<int>::empty());
        while i < self.fields.len()
            invariant
                i <= self.fields.len(),
                self@.len() == self.fields.len(),
                ints(at@) == positions(self@.take(i as int), required),
            decreases self.fields.len() - i,
        {
            proof {
                let next = self@.take(i + 1);
                assert(next.drop_last() =~= self@.take(i as int));
                assert(next.last() == self.fields@[i as int]@);
                lemma_ints_push(at@, i);
            }
            if self.fields[i].required == required {
                at.push(i);
            }
            i += 1;
        }
        assert(self@.take(i as int) =~= self@);
        at
    }

    /// The number of required fields: the length of the typestate vector.
    pub fn required_count(&self) -> (n: usize)
        ensures
            n == positions(self@, true).len(),
    {
        let at = self.positions_of(true);
        assert(ints(at@).len() == at@.len());
        at.len()
    }

    /// Whether no two fields have the same name.
    pub fn has_distinct_names(&self) -> (b: bool)
        ensures
            b == distinct_names(self@),
    {
        let mut j: usize = 0;
        while j < self.fields.len()
            invariant
                j <= self.fields.len(),
                self@.len() == self.fields.len(),
                forall|a: int, b: int|
                    0 <= a < b < j ==> (#[trigger] self@[a]).name != (#[trigger] self@[b]).name,
            decreases self.fields.len() - j,
        {
            let mut i: usize = 0;
            while i < j
                invariant
                    i <= j < self.fields.len(),
                    self@.len() == self.fields.len(),
                    forall|a: int| 0 <= a < i ==> (#[trigger] self@[a]).name != self@[j as int].name,
                decreases j - i,
            {
                if self.fields[i].name == self.fields[j].name {
                    assert(self@[i as int].name == self@[j as int].name);
                    return false;
                }
                i += 1;
            }
            j += 1;
        }
        true
    }
}

/// Every listed position is in range and holds a field of the asked kind, and
/// the positions ascend.
pub proof fn lemma_positions_sound(fields: Seq<FieldSpecView>, required: bool)
    ensures
        positions(fields, required).len() <= fields.len(),
        forall|k: int|
            0 <= k < positions(fields, required).len() ==> 0 <= (#[trigger] positions(
                fields,
                required,
            )[k]) < fields.len() && fields[positions(fields, required)[k]].required == required,
        forall|a: int, b: int|
            0 <= a < b < positions(fields, required).len() ==> positions(fields, required)[a]
                < positions(fields, required)[b],
    decreases fields.len(),
{
    if fields.len() > 0 {
        lemma_positions_sound(fields.drop_last(), required);
    }
}

/// Every field of the asked kind is listed.
pub proof fn lemma_positions_complete(fields: Seq<FieldSpecView>, required: bool, f: int)
    requires
        0 <= f < fields.len(),
        fields[f].required == required,
    ensures
        exists|k: int|
            0 <= k < positions(fields, required).len() && #[trigger] positions(
                fields,
                required,
            )[k] == f,
    decreases fields.len(),
{
    let here = positions(fields, required);
    if f == fields.len() - 1 {
        assert(here[here.len() - 1] == f);
    } else {
        lemma_positions_complete(fields.drop_last(), required, f);
        let before = positions(fields.drop_last(), required);
        let k = choose|k: int| 0 <= k < before.len() && #[trigger] before[k] == f;
        assert(here[k] == f);
    }
}

} // verus!
