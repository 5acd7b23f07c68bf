//! The plan of the generated builder: its type, its entry point, one setter
//! for each field and the terminal `build`.

use vstd::prelude::*;
use vstd::string::*;
use vstd::hash_map::StringHashMap;
use crate::attr::{find_method_name, method_name_of, resolve_method_name, Attribute};
use crate::error::GenerateError;
use crate::naming::{
    builder_name, builder_type_name, create_field_type, default_builder_name,
    default_builder_type_name, field_type_name, field_type_names, unset_name, unset_type_name,
};
use crate::schema::{
    extract_schema, extracted, lemma_positions_sound, names_at, positions, Field, FieldSpecView,
    Schema,
};
use crate::typevars::{
    create_field_type_map, expand_all_type_variables, expand_default_type_variables,
    expand_filled_type_variables, expand_masked_type_variables,
    expand_masked_type_variables_decl, expand_return_types, filled_args, lemma_type_map_keys,
    masked_args, masked_decls, param_args, return_args, text_map, type_map, unset_args, TypeArg,
    TypeArgView,
};
use crate::views::{ints, views};

verus! {

/// What a definition declares.
#[derive(Debug, Clone, PartialEq, Eq)]
pub enum RecordBody {
    /// A struct with named fields.
    Named(Vec<Field>),
    /// A tuple struct, a unit struct, an enum or a union.
    Other,
}

/// The definition that a builder is asked for.
#[derive(Debug, Clone, PartialEq, Eq)]
pub struct RecordDef {
    pub name: String,
    pub attrs: Vec<Attribute>,
    pub body: RecordBody,
}

/// A field of the builder type.
#[derive(Debug, Clone, PartialEq, Eq)]
pub struct BuilderField {
    pub name: String,
    /// The field's type in the builder: the field's type parameter if it is
    /// required, its declared type if it is optional.
    pub storage: TypeArg,
}

pub struct BuilderFieldView {
    pub name: Seq<char>,
    pub storage: TypeArgView,
}

impl View for BuilderField {
    type V = BuilderFieldView;

    open spec fn view(&self) -> BuilderFieldView {
        BuilderFieldView { name: self.name@, storage: self.storage@ }
    }
}

/// One generated setter:
/// `impl<decls> Builder<self_args> { pub fn name(self, name: arg_type) -> Builder<ret_args> }`.
/// Its body moves every field of `self` into the new builder but the field at
/// `target`, which takes the argument.
#[derive(Debug, Clone, PartialEq, Eq)]
pub struct Setter {
    pub name: String,
    /// The position of the field that the setter sets.
    pub target: usize,
    pub decls: Vec<String>,
    pub self_args: Vec<TypeArg>,
    pub arg_type: String,
    pub ret_args: Vec<TypeArg>,
    /// Whether the argument is stored as `Some(..)`.
    pub wraps: bool,
}

pub struct SetterView {
    pub name: Seq<char>,
    pub target: int,
    pub decls: Seq<Seq<char>>,
    pub self_args: Seq<TypeArgView>,
    pub arg_type: Seq<char>,
    pub ret_args: Seq<TypeArgView>,
    pub wraps: bool,
}

impl View for Setter {
    type V = SetterView;

    open spec fn view(&self) -> SetterView {
        SetterView {
            name: self.name@,
            target: self.target as int,
            decls: views(self.decls@),
            self_args: views(self.self_args@),
            arg_type: self.arg_type@,
            ret_args: views(self.ret_args@),
            wraps: self.wraps,
        }
    }
}

/// Everything that is generated for one record.
#[derive(Debug, Clone, PartialEq, Eq)]
pub struct Generated {
    pub struct_name: String,
    pub builder_name: String,
    /// The alias of the builder type in which every position is unset.
    pub default_builder_type: String,
    /// The type that marks a position as unset.
    pub unset_type: String,
    /// The name of the entry point.
    pub method_name: String,
    pub fields: Vec<BuilderField>,
    /// The type parameters of the builder type, one for each required field.
    pub type_params: Vec<TypeArg>,
    /// The type arguments of the builder that the entry point returns.
    pub default_args: Vec<TypeArg>,
    /// The type arguments of the builder that `build` is defined for.
    pub filled_args: Vec<TypeArg>,
    /// The setters of the required fields, then those of the optional ones.
    pub setters: Vec<Setter>,
}

pub struct GeneratedView {
    pub struct_name: Seq<char>,
    pub builder_name: Seq<char>,
    pub default_builder_type: Seq<char>,
    pub unset_type: Seq<char>,
    pub method_name: Seq<char>,
    pub fields: Seq<BuilderFieldView>,
    pub type_params: Seq<TypeArgView>,
    pub default_args: Seq<TypeArgView>,
    pub filled_args: Seq<TypeArgView>,
    pub setters: Seq<SetterView>,
}

impl View for Generated {
    type V = GeneratedView;

    open spec fn view(&self) -> GeneratedView {
        GeneratedView {
            struct_name: self.struct_name@,
            builder_name: self.builder_name@,
            default_builder_type: self.default_builder_type@,
            unset_type: self.unset_type@,
            method_name: self.method_name@,
            fields: views(self.fields@),
            type_params: views(self.type_params@),
            default_args: views(self.default_args@),
            filled_args: views(self.filled_args@),
            setters: views(self.setters@),
        }
    }
}

/// The names of the required fields, in the order of the typestate vector.
pub open spec fn required_names(fields: Seq<FieldSpecView>) -> Seq<Seq<char>> {
    names_at(fields, positions(fields, true))
}

pub open spec fn planned_field(field: FieldSpecView) -> BuilderFieldView {
    BuilderFieldView {
        name: field.name,
        storage: if field.required {
            TypeArgView::Param(field_type_name(field.name))
        } else {
            TypeArgView::Filled(field.declared_type)
        },
    }
}

pub open spec fn planned_fields(fields: Seq<FieldSpecView>) -> Seq<BuilderFieldView> {
    Seq::new(fields.len(), |f: int| planned_field(fields[f]))
}

/// The setter of the required field with index `i`: defined where position
/// `i` is unset, whatever the other positions hold, and returning the builder
/// with position `i` filled.
pub open spec fn required_setter(fields: Seq<FieldSpecView>, i: int) -> SetterView {
    let idents = required_names(fields);
    let target = positions(fields, true)[i];
    let ty = type_map(fields)[fields[target].name];
    SetterView {
        name: fields[target].name,
        target,
        decls: masked_decls(idents, i),
        self_args: masked_args(idents, i),
        arg_type: ty,
        ret_args: return_args(idents, i, ty),
        wraps: false,
    }
}

/// The setter of the `k`-th optional field: defined for every typestate,
/// which it leaves as it is.
pub open spec fn optional_setter(fields: Seq<FieldSpecView>, k: int) -> SetterView {
    let idents = required_names(fields);
    let target = positions(fields, false)[k];
    SetterView {
        name: fields[target].name,
        target,
        decls: field_type_names(idents),
        self_args: param_args(idents),
        arg_type: fields[target].value_type,
        ret_args: param_args(idents),
        wraps: true,
    }
}

pub open spec fn required_setters(fields: Seq<FieldSpecView>) -> Seq<SetterView> {
    Seq::new(positions(fields, true).len(), |i: int| required_setter(fields, i))
}

pub open spec fn optional_setters(fields: Seq<FieldSpecView>) -> Seq<SetterView> {
    Seq::new(positions(fields, false).len(), |k: int| optional_setter(fields, k))
}

/// The plan for a record named `record` with the given schema, whose entry
/// point is named `method`.
pub open spec fn planned(record: Seq<char>, method: Seq<char>, fields: Seq<FieldSpecView>)
    -> GeneratedView {
    let idents = required_names(fields);
    GeneratedView {
        struct_name: record,
        builder_name: builder_type_name(record),
        default_builder_type: default_builder_type_name(record),
        unset_type: unset_type_name(record),
        method_name: method,
        fields: planned_fields(fields),
        type_params: param_args(idents),
        default_args: unset_args(idents.len()),
        filled_args: filled_args(idents, type_map(fields)),
        setters: required_setters(fields) + optional_setters(fields),
    }
}

/// What is generated for a definition: nothing for one without named fields
/// or with a malformed name for the entry point, else the plan for its schema.
pub open spec fn expanded(input: RecordDef) -> Result<GeneratedView, GenerateError> {
    match input.body {
        RecordBody::Other => Err(GenerateError::UnsupportedShape),
        RecordBody::Named(fields) => match method_name_of(input.attrs@) {
            Ok(method) => Ok(planned(input.name@, method, extracted(fields@))),
            Err(e) => Err(e),
        },
    }
}

/// Every signature of the plan speaks of the same number of type arguments,
/// and every setter sets a field that exists.
pub open spec fn well_formed(g: GeneratedView) -> bool {
    &&& g.filled_args.len() == g.default_args.len()
    &&& forall|i: int|
        0 <= i < g.setters.len() ==> {
            let s = #[trigger] g.setters[i];
            &&& s.self_args.len() == g.default_args.len()
            &&& s.ret_args.len() == g.default_args.len()
            &&& 0 <= s.target < g.fields.len()
        }
}

/// Every plan that the generator makes is well formed.
pub proof fn lemma_planned_well_formed(
    record: Seq<char>,
    method: Seq<char>,
    fields: Seq<FieldSpecView>,
)
    ensures
        well_formed(planned(record, method, fields)),
{
    lemma_positions_sound(fields, true);
    lemma_positions_sound(fields, false);
}

/// The names of the fields at the given positions.
fn names_of(schema: &Schema, at: &Vec<usize>, Ghost(required): Ghost<bool>) -> (idents: Vec<
    String,
>)
    requires
        ints(at@) == positions(schema@, required),
    ensures
        views(idents@) == names_at(schema@, positions(schema@, required)),
{
    proof {
        lemma_positions_sound(schema@, required);
    }
    let mut idents: Vec<String> = Vec::new();
    let mut k: usize = 0;
    while k < at.len()
        invariant
            k <= at.len(),
            idents@.len() == k,
            ints(at@) == positions(schema@, required),
            schema@.len() == schema.fields@.len(),
            forall|j: int|
                0 <= j < ints(at@).len() ==> 0 <= #[trigger] ints(at@)[j] < schema@.len(),
            forall|j: int| 0 <= j < k ==> (#[trigger] idents@[j])@ == schema@[ints(at@)[j]].name,
        decreases at.len() - k,
    {
        assert(0 <= ints(at@)[k as int] < schema@.len());
        idents.push(schema.fields[at[k]].name.clone());
        k += 1;
    }
    assert(views(idents@) =~= names_at(schema@, positions(schema@, required)));
    idents
}

fn builder_fields(schema: &Schema) -> (out: Vec<BuilderField>)
    ensures
        views(out@) == planned_fields(schema@),
{
    let mut out: Vec<BuilderField> = Vec::new();
    let mut f: usize = 0;
    while f < schema.fields.len()
        invariant
            f <= schema.fields.len(),
            out@.len() == f,
            schema@.len() == schema.fields@.len(),
            forall|j: int| 0 <= j < f ==> (#[trigger] out@[j])@ == planned_field(schema@[j]),
        decreases schema.fields.len() - f,
    {
        let field = &schema.fields[f];
        let storage = if field.required {
            TypeArg::Param(create_field_type(field.name.as_str()))
        } else {
            TypeArg::Filled(field.declared_type.clone())
        };
        out.push(BuilderField { name: field.name.clone(), storage });
        f += 1;
    }
    assert(views(out@) =~= planned_fields(schema@));
    out
}

fn required_fns(
    schema: &Schema,
    at: &Vec<usize>,
    idents: &Vec<String>,
    types: &StringHashMap<String>,
) -> (out: Vec<Setter>)
    requires
        ints(at@) == positions(schema@, true),
        views(idents@) == required_names(schema@),
        text_map(types@) == type_map(schema@),
    ensures
        views(out@) == required_setters(schema@),
{
    proof {
        lemma_positions_sound(schema@, true);
    }
    let mut out: Vec<Setter> = Vec::new();
    let mut i: usize = 0;
    while i < at.len()
        invariant
            i <= at.len(),
            out@.len() == i,
            at@.len() == positions(schema@, true).len(),
            ints(at@) == positions(schema@, true),
            views(idents@) == required_names(schema@),
            text_map(types@) == type_map(schema@),
            schema@.len() == schema.fields@.len(),
            forall|j: int|
                0 <= j < ints(at@).len() ==> 0 <= #[trigger] ints(at@)[j] < schema@.len(),
            forall|j: int| 0 <= j < i ==> (#[trigger] out@[j])@ == required_setter(schema@, j),
        decreases at.len() - i,
    {
        assert(0 <= ints(at@)[i as int] < schema@.len());
        let target: usize = at[i];
        let name = &schema.fields[target].name;
        proof {
            lemma_type_map_keys(schema@, target as int);
            assert(text_map(types@).contains_key(name@));
            assert(types@.contains_key(name@));
        }
        let arg_type = types.get(name.as_str()).unwrap();
        assert(arg_type@ == text_map(types@)[name@]);
        let vars = expand_masked_type_variables(idents, i);
        let decls = expand_masked_type_variables_decl(idents, i);
        let return_types = expand_return_types(idents, i, arg_type.as_str());
        out.push(
            Setter {
                name: name.clone(),
                target,
                decls,
                self_args: vars,
                arg_type: arg_type.clone(),
                ret_args: return_types,
                wraps: false,
            },
        );
        i += 1;
    }
    assert(views(out@) =~= required_setters(schema@));
    out
}

fn optional_fns(schema: &Schema, at: &Vec<usize>, idents: &Vec<String>) -> (out: Vec<Setter>)
    requires
        ints(at@) == positions(schema@, false),
        views(idents@) == required_names(schema@),
    ensures
        views(out@) == optional_setters(schema@),
{
    proof {
        lemma_positions_sound(schema@, false);
    }
    let mut out: Vec<Setter> = Vec::new();
    let mut k: usize = 0;
    while k < at.len()
        invariant
            k <= at.len(),
            out@.len() == k,
            at@.len() == positions(schema@, false).len(),
            ints(at@) == positions(schema@, false),
            views(idents@) == required_names(schema@),
            schema@.len() == schema.fields@.len(),
            forall|j: int|
                0 <= j < ints(at@).len() ==> 0 <= #[trigger] ints(at@)[j] < schema@.len(),
            forall|j: int| 0 <= j < k ==> (#[trigger] out@[j])@ == optional_setter(schema@, j),
        decreases at.len() - k,
    {
        assert(0 <= ints(at@)[k as int] < schema@.len());
        let target: usize = at[k];
        let field = &schema.fields[target];
        let decls = type_parameter_names(idents);
        let types = expand_all_type_variables(idents);
        let return_types = expand_all_type_variables(idents);
        out.push(
            Setter {
                name: field.name.clone(),
                target,
                decls,
                self_args: types,
                arg_type: field.value_type.clone(),
                ret_args: return_types,
                wraps: true,
            },
        );
        k += 1;
    }
    assert(views(out@) =~= optional_setters(schema@));
    out
}

/// The names of the type parameters of all the required fields: the
/// declarations of an `impl` in which no position is fixed.
fn type_parameter_names(idents: &Vec<String>) -> (out: Vec<String>)
    ensures
        views(out@) == field_type_names(views(idents@)),
{
    expand_masked_type_variables_decl(idents, idents.len())
}

/// Plans the builder of a record with the given schema, whose entry point is
/// named `method`.
pub fn plan_builder(record: &str, method: String, schema: &Schema) -> (out: Generated)
    ensures
        out@ == planned(record@, method@, schema@),
        well_formed(out@),
{
    proof {
        lemma_planned_well_formed(record@, method@, schema@);
    }
    let builder = builder_name(record);
    let default_builder_type = default_builder_name(record);
    let unset_type = unset_name(record);
    let fields = builder_fields(schema);
    let required_at = schema.positions_of(true);
    let optional_at = schema.positions_of(false);
    let required_field_idents = names_of(schema, &required_at, Ghost(true));
    let default_type_variables = expand_default_type_variables(&required_field_idents);
    let field_type_map = create_field_type_map(schema);
    let mut setters = required_fns(schema, &required_at, &required_field_idents, &field_type_map);
    let mut optional = optional_fns(schema, &optional_at, &required_field_idents);
    let ghost required_part = setters@;
    let ghost optional_part = optional@;
    setters.append(&mut optional);
    let builder_type_variables = expand_all_type_variables(&required_field_idents);
    proof {
        lemma_positions_sound(schema@, true);
        assert forall|i: int| 0 <= i < required_field_idents@.len() implies field_type_map@
            .contains_key(#[trigger] required_field_idents@[i]@) by {
            let f = positions(schema@, true)[i];
            lemma_type_map_keys(schema@, f);
            assert(views(required_field_idents@)[i] == schema@[f].name);
            assert(text_map(field_type_map@).contains_key(schema@[f].name));
        }
    }
    let builder_filled_type_variables = expand_filled_type_variables(
        &required_field_idents,
        &field_type_map,
    );
    let out = Generated {
        struct_name: record.to_owned(),
        builder_name: builder,
        default_builder_type,
        unset_type,
        method_name: method,
        fields,
        type_params: builder_type_variables,
        default_args: default_type_variables,
        filled_args: builder_filled_type_variables,
        setters,
    };
    proof {
        assert(views(required_part + optional_part) =~= views(required_part) + views(
            optional_part,
        ));
        assert(views(required_field_idents@).len() == required_field_idents@.len());
    }
    out
}

/// Generates the builder for a definition.
pub fn expand(input: &RecordDef) -> (out: Result<Generated, GenerateError>)
    ensures
        match out {
            Ok(plan) => expanded(*input) == Ok::<GeneratedView, GenerateError>(plan@)
                && well_formed(plan@),
            Err(e) => expanded(*input) == Err::<GeneratedView, GenerateError>(e),
        },
{
    let fields = match &input.body {
        RecordBody::Named(fields) => fields,
        RecordBody::Other => { return Err(GenerateError::UnsupportedShape); },
    };
    let schema = extract_schema(fields);
    let found = match find_method_name(&input.attrs) {
        Ok(found) => found,
        Err(e) => { return Err(e); },
    };
    match resolve_method_name(found) {
        Ok(method) => Ok(plan_builder(input.name.as_str(), method, &schema)),
        Err(e) => Err(e),
    }
}

} // verus!
