//! The type arguments of the builder type in each generated signature.
//!
//! A builder has one type parameter for each required field. A position of
//! the list is unset, generic (the field's own type parameter) or filled with
//! a concrete type.

use vstd::prelude::*;
use vstd::string::*;
use vstd::hash_map::StringHashMap;
use crate::naming::{create_field_type, field_type_name, field_type_names};
use crate::schema::{FieldSpecView, Schema};
use crate::views::views;

verus! {

/// One type argument of the builder type.
#[derive(Debug, Clone, PartialEq, Eq)]
pub enum TypeArg {
    /// The marker of a field that is not set yet.
    Unset,
    /// A type parameter of the surrounding `impl`, by its name.
    Param(String),
    /// A concrete type, by its text.
    Filled(String),
}

pub enum TypeArgView {
    Unset,
    Param(Seq<char>),
    Filled(Seq<char>),
}

impl View for TypeArg {
    type V = TypeArgView;

    open spec fn view(&self) -> TypeArgView {
        match self {
            TypeArg::Unset => TypeArgView::Unset,
            TypeArg::Param(name) => TypeArgView::Param(name@),
            TypeArg::Filled(text) => TypeArgView::Filled(text@),
        }
    }
}

/// `n` unset positions.
pub open spec fn unset_args(n: nat) -> Seq<TypeArgView> {
    Seq::new(n, |i: int| TypeArgView::Unset)
}

/// Every position generic.
pub open spec fn param_args(idents: Seq<Seq<char>>) -> Seq<TypeArgView> {
    Seq::new(idents.len(), |i: int| TypeArgView::Param(field_type_name(idents[i])))
}

/// Position `open` unset, the others generic.
pub open spec fn masked_args(idents: Seq<Seq<char>>, open: int) -> Seq<TypeArgView> {
    Seq::new(
        idents.len(),
        |i: int|
            if i == open {
                TypeArgView::Unset
            } else {
                TypeArgView::Param(field_type_name(idents[i]))
            },
    )
}

/// Position `open` filled with `ty`, the others generic.
pub open spec fn return_args(idents: Seq<Seq<char>>, open: int, ty: Seq<char>) -> Seq<
    TypeArgView,
> {
    Seq::new(
        idents.len(),
        |i: int|
            if i == open {
                TypeArgView::Filled(ty)
            } else {
                TypeArgView::Param(field_type_name(idents[i]))
            },
    )
}

/// The type parameters that an `impl` declares when position `open` is fixed:
/// those of all the other positions.
pub open spec fn masked_decls(idents: Seq<Seq<char>>, open: int) -> Seq<Seq<char>> {
    if 0 <= open < idents.len() {
        field_type_names(idents).remove(open)
    } else {
        field_type_names(idents)
    }
}

/// Every position filled with the type that `types` gives for its field.
pub open spec fn filled_args(idents: Seq<Seq<char>>, types: Map<Seq<char>, Seq<char>>) -> Seq<
    TypeArgView,
> {
    Seq::new(idents.len(), |i: int| TypeArgView::Filled(types[idents[i]]))
}

/// The declared type of each field by the field's name; of two fields with
/// one name the later counts.
pub open spec fn type_map(fields: Seq<FieldSpecView>) -> Map<Seq<char>, Seq<char>>
    decreases fields.len(),
{
    if fields.len() == 0 {
        Map::empty()
    } else {
        type_map(fields.drop_last()).insert(fields.last().name, fields.last().declared_type)
    }
}

/// A map of texts, value by value.
pub open spec fn text_map(m: Map<Seq<char>, String>) -> Map<Seq<char>, Seq<char>> {
    m.map_values(|text: String| text@)
}

/// The type arguments of the builder in which nothing is set.
pub fn expand_default_type_variables(idents: &Vec<String>) -> (out: Vec<TypeArg>)
    ensures
        out@.len() == idents@.len(),
        views(out@) == unset_args(idents@.len()),
{
    let mut out: Vec<TypeArg> = Vec::new();
    let mut i: usize = 0;
    while i < idents.len()
        invariant
            i <= idents.len(),
            out@.len() == i,
            forall|j: int| 0 <= j < i ==> (#[trigger] out@[j])@ == TypeArgView::Unset,
        decreases idents.len() - i,
    {
        out.push(TypeArg::Unset);
        i += 1;
    }
    assert(views(out@) =~= unset_args(idents@.len()));
    out
}

/// The type arguments for which the setter of position `open_index` is
/// defined: that position unset, every other one generic.
pub fn expand_masked_type_variables(idents: &Vec<String>, open_index: usize) -> (out: Vec<
    TypeArg,
>)
    ensures
        out@.len() == idents@.len(),
        views(out@) == masked_args(views(idents@), open_index as int),
{
    let ghost want = masked_args(views(idents@), open_index as int);
    let mut out: Vec<TypeArg> = Vec::new();
    let mut i: usize = 0;
    while i < idents.len()
        invariant
            i <= idents.len(),
            out@.len() == i,
            want == masked_args(views(idents@), open_index as int),
            forall|j: int| 0 <= j < i ==> (#[trigger] out@[j])@ == want[j],
        decreases idents.len() - i,
    {
        if open_index == i {
            out.push(TypeArg::Unset);
        } else {
            out.push(TypeArg::Param(create_field_type(idents[i].as_str())));
        }
        i += 1;
    }
    assert(views(out@) =~= want);
    out
}

/// The type arguments with every position generic.
pub fn expand_all_type_variables(idents: &Vec<String>) -> (out: Vec<TypeArg>)
    ensures
        out@.len() == idents@.len(),
        views(out@) == param_args(views(idents@)),
{
    let ghost want = param_args(views(idents@));
    let mut out: Vec<TypeArg> = Vec::new();
    let mut i: usize = 0;
    while i < idents.len()
        invariant
            i <= idents.len(),
            out@.len() == i,
            want == param_args(views(idents@)),
            forall|j: int| 0 <= j < i ==> (#[trigger] out@[j])@ == want[j],
        decreases idents.len() - i,
    {
        out.push(TypeArg::Param(create_field_type(idents[i].as_str())));
        i += 1;
    }
    assert(views(out@) =~= want);
    out
}

/// The type arguments that the setter of position `open_index` returns: that
/// position filled with `ty`, every other one generic.
pub fn expand_return_types(idents: &Vec<String>, open_index: usize, ty: &str) -> (out: Vec<
    TypeArg,
>)
    ensures
        out@.len() == idents@.len(),
        views(out@) == return_args(views(idents@), open_index as int, ty@),
{
    let ghost want = return_args(views(idents@), open_index as int, ty@);
    let mut out: Vec<TypeArg> = Vec::new();
    let mut i: usize = 0;
    while i < idents.len()
        invariant
            i <= idents.len(),
            out@.len() == i,
            want == return_args(views(idents@), open_index as int, ty@),
            forall|j: int| 0 <= j < i ==> (#[trigger] out@[j])@ == want[j],
        decreases idents.len() - i,
    {
        if open_index == i {
            out.push(TypeArg::Filled(ty.to_owned()));
        } else {
            out.push(TypeArg::Param(create_field_type(idents[i].as_str())));
        }
        i += 1;
    }
    assert(views(out@) =~= want);
    out
}

/// The type parameters that the `impl` of the setter of position
/// `open_index` declares: one for every other position.
pub fn expand_masked_type_variables_decl(idents: &Vec<String>, open_index: usize) -> (out: Vec<
    String,
>)
    ensures
        views(out@) == masked_decls(views(idents@), open_index as int),
{
    let ghost names = field_type_names(views(idents@));
    let mut out: Vec<String> = Vec::new();
    let mut i: usize = 0;
    while i < idents.len()
        invariant
            i <= idents.len(),
            names == field_type_names(views(idents@)),
            out@.len() == if i <= open_index { i as int } else { i - 1 },
            forall|j: int|
                0 <= j < out@.len() ==> (#[trigger] out@[j])@ == names[if j < open_index {
                    j
                } else {
                    j + 1
                }],
        decreases idents.len() - i,
    {
        if open_index != i {
            out.push(create_field_type(idents[i].as_str()));
        }
        i += 1;
    }
    assert(views(out@) =~= masked_decls(views(idents@), open_index as int));
    out
}

/// The type arguments for which `build` is defined: every position filled
/// with the declared type of its field.
pub fn expand_filled_type_variables(idents: &Vec<String>, type_map: &StringHashMap<String>) -> (out:
    Vec<TypeArg>)
    requires
        forall|i: int| 0 <= i < idents@.len() ==> type_map@.contains_key(#[trigger] idents@[i]@),
    ensures
        out@.len() == idents@.len(),
        views(out@) == filled_args(views(idents@), text_map(type_map@)),
{
    let ghost want = filled_args(views(idents@), text_map(type_map@));
    let mut out: Vec<TypeArg> = Vec::new();
    let mut i: usize = 0;
    while i < idents.len()
        invariant
            i <= idents.len(),
            out@.len() == i,
            forall|k: int| 0 <= k < idents@.len() ==> type_map@.contains_key(#[trigger] idents@[k]@),
            want == filled_args(views(idents@), text_map(type_map@)),
            forall|j: int| 0 <= j < i ==> (#[trigger] out@[j])@ == want[j],
        decreases idents.len() - i,
    {
        assert(type_map@.contains_key(idents@[i as int]@));
        let found = type_map.get(idents[i].as_str());
        let ty = found.unwrap();
        out.push(TypeArg::Filled(ty.clone()));
        i += 1;
    }
    assert(views(out@) =~= want);
    out
}

/// The declared type of every field, by the field's name.
pub fn create_field_type_map(schema: &Schema) -> (types: StringHashMap<String>)
    ensures
        text_map(types@) == type_map(schema@),
{
    let mut types: StringHashMap<String> = StringHashMap::new();
    let mut i: usize = 0;
    assert(schema@.take(0) =~= Seq::<FieldSpecView>::empty());
    assert(text_map(types@) =~= Map::<Seq<char>, Seq<char>>::empty());
    while i < schema.fields.len()
        invariant
            i <= schema.fields.len(),
            schema@.len() == schema.fields.len(),
            text_map(types@) == type_map(schema@.take(i as int)),
        decreases schema.fields.len() - i,
    {
        let ghost before = types@;
        let name = schema.fields[i].name.clone();
        let ty = schema.fields[i].declared_type.clone();
        types.insert(name, ty);
        proof {
            let next = schema@.take(i + 1);
            assert(next.drop_last() =~= schema@.take(i as int));
            assert(next.last() == schema.fields@[i as int]@);
            assert(text_map(before.insert(name@, ty)) =~= text_map(before).insert(name@, ty@));
        }
        i += 1;
    }
    assert(schema@.take(i as int) =~= schema@);
    types
}

/// Every field's name is a key of the type map.
pub proof fn lemma_type_map_keys(fields: Seq<FieldSpecView>, f: int)
    requires
        0 <= f < fields.len(),
    ensures
        type_map(fields).contains_key(fields[f].name),
    decreases fields.len(),
{
    if f < fields.len() - 1 {
        lemma_type_map_keys(fields.drop_last(), f);
    }
}

} // verus!
