//! The generated builder as Rust source text.
//!
//! The items come in a fixed order, one on each line: the marker of an unset
//! position, the builder type, the alias of its unset form, the entry point,
//! `build`, then the setters. Every element of a list is followed by a comma
//! and a space.

use vstd::prelude::*;
use vstd::string::*;
use crate::error::GenerateError;
use crate::expander::{
    expand, expanded, BuilderField, BuilderFieldView, Generated, GeneratedView, RecordDef,
    Setter, SetterView,
};
use crate::typevars::{TypeArg, TypeArgView};
use crate::views::views;

verus! {

/// How a type argument is written. An unset position is written as the
/// marker type `unset`.
pub open spec fn arg_text(unset: Seq<char>, arg: TypeArgView) -> Seq<char> {
    match arg {
        TypeArgView::Unset => unset,
        TypeArgView::Param(name) => name,
        TypeArgView::Filled(text) => text,
    }
}

pub open spec fn arg_texts(unset: Seq<char>, args: Seq<TypeArgView>) -> Seq<Seq<char>> {
    Seq::new(args.len(), |i: int| arg_text(unset, args[i]))
}

/// The items one after another, each followed by `, `.
pub open spec fn listed(items: Seq<Seq<char>>) -> Seq<char>
    decreases items.len(),
{
    if items.len() == 0 {
        Seq::empty()
    } else {
        listed(items.drop_last()) + items.last() + ", "@
    }
}

/// What is written for a field inside braces.
pub enum FieldForm {
    /// `name: Type` in the declaration of the builder type.
    Declare,
    /// `name: Marker` or `name: None` in the entry point.
    Initial,
    /// `name: self.name` where a builder is consumed.
    Move,
}

pub open spec fn field_text(unset: Seq<char>, field: BuilderFieldView, form: FieldForm) -> Seq<
    char,
> {
    match form {
        FieldForm::Declare => field.name + ": "@ + arg_text(unset, field.storage),
        FieldForm::Initial => field.name + ": "@ + if field.storage is Param {
            unset
        } else {
            "None"@
        },
        FieldForm::Move => field.name + ": self."@ + field.name,
    }
}

/// The texts of all the fields but the one at position `skip`.
pub open spec fn field_texts(
    unset: Seq<char>,
    fields: Seq<BuilderFieldView>,
    form: FieldForm,
    skip: int,
) -> Seq<Seq<char>> {
    let all = Seq::new(fields.len(), |f: int| field_text(unset, fields[f], form));
    if 0 <= skip < fields.len() {
        all.remove(skip)
    } else {
        all
    }
}

/// The declaration of the marker of an unset position.
pub open spec fn marker_text(g: GeneratedView) -> Seq<char> {
    "pub struct "@ + g.unset_type + ";\n"@
}

pub open spec fn struct_text(g: GeneratedView) -> Seq<char> {
    "pub struct "@ + g.builder_name + "<"@ + listed(arg_texts(g.unset_type, g.type_params))
        + "> { "@ + listed(field_texts(g.unset_type, g.fields, FieldForm::Declare, -1)) + "}\n"@
}

pub open spec fn alias_text(g: GeneratedView) -> Seq<char> {
    "pub type "@ + g.default_builder_type + " = "@ + g.builder_name + "<"@ + listed(
        arg_texts(g.unset_type, g.default_args),
    ) + ">;\n"@
}

pub open spec fn entry_text(g: GeneratedView) -> Seq<char> {
    "impl "@ + g.struct_name + " { pub fn "@ + g.method_name + "() -> "@ + g.builder_name + "<"@
        + listed(arg_texts(g.unset_type, g.default_args)) + "> { "@ + g.builder_name + " { "@
        + listed(field_texts(g.unset_type, g.fields, FieldForm::Initial, -1)) + "} } }\n"@
}

pub open spec fn build_text(g: GeneratedView) -> Seq<char> {
    "impl "@ + g.builder_name + "<"@ + listed(arg_texts(g.unset_type, g.filled_args))
        + "> { pub fn build(self) -> "@ + g.struct_name + " { "@ + g.struct_name + " { "@ + listed(
        field_texts(g.unset_type, g.fields, FieldForm::Move, -1),
    ) + "} } }\n"@
}

/// How a setter stores its argument.
pub open spec fn store_text(s: SetterView) -> Seq<char> {
    if s.wraps {
        s.name + ": Some("@ + s.name + "), "@
    } else {
        s.name + ", "@
    }
}

pub open spec fn setter_text(g: GeneratedView, s: SetterView) -> Seq<char> {
    "impl<"@ + listed(s.decls) + "> "@ + g.builder_name + "<"@ + listed(
        arg_texts(g.unset_type, s.self_args),
    ) + "> { pub fn "@ + s.name + "(self, "@ + s.name + ": "@ + s.arg_type + ") -> "@
        + g.builder_name + "<"@ + listed(arg_texts(g.unset_type, s.ret_args)) + "> { "@
        + g.builder_name + " { "@ + store_text(s) + listed(
        field_texts(g.unset_type, g.fields, FieldForm::Move, s.target),
    ) + "} } }\n"@
}

pub open spec fn setters_text(g: GeneratedView, setters: Seq<SetterView>) -> Seq<char>
    decreases setters.len(),
{
    if setters.len() == 0 {
        Seq::empty()
    } else {
        setters_text(g, setters.drop_last()) + setter_text(g, setters.last())
    }
}

/// The whole generated text.
pub open spec fn rendered(g: GeneratedView) -> Seq<char> {
    marker_text(g) + struct_text(g) + alias_text(g) + entry_text(g) + build_text(g)
        + setters_text(g, g.setters)
}

fn list(items: &Vec<String>) -> (out: String)
    ensures
        out@ == listed(views(items@)),
{
    let mut out = String::new();
    let mut i: usize = 0;
    assert(views(items@).take(0) =~= Seq::<Seq<char>>::empty());
    while i < items.len()
        invariant
            i <= items.len(),
            out@ == listed(views(items@).take(i as int)),
        decreases items.len() - i,
    {
        proof {
            let next = views(items@).take(i + 1);
            assert(next.drop_last() =~= views(items@).take(i as int));
            assert(next.last() == items@[i as int]@);
        }
        out.append(items[i].as_str());
        out.append(", ");
        i += 1;
    }
    assert(views(items@).take(i as int) =~= views(items@));
    out
}

fn arg_string(arg: &TypeArg, unset: &str) -> (out: String)
    ensures
        out@ == arg_text(unset@, arg@),
{
    match arg {
        TypeArg::Unset => unset.to_owned(),
        TypeArg::Param(name) => name.clone(),
        TypeArg::Filled(text) => text.clone(),
    }
}

fn arg_list(args: &Vec<TypeArg>, unset: &str) -> (out: String)
    ensures
        out@ == listed(arg_texts(unset@, views(args@))),
{
    let mut items: Vec<String> = Vec::new();
    let mut i: usize = 0;
    while i < args.len()
        invariant
            i <= args.len(),
            items@.len() == i,
            forall|j: int| 0 <= j < i ==> (#[trigger] items@[j])@ == arg_text(unset@, args@[j]@),
        decreases args.len() - i,
    {
        items.push(arg_string(&args[i], unset));
        i += 1;
    }
    assert(views(items@) =~= arg_texts(unset@, views(args@)));
    list(&items)
}

fn field_string(field: &BuilderField, form: &FieldForm, unset: &str) -> (out: String)
    ensures
        out@ == field_text(unset@, field@, *form),
{
    let mut out = field.name.clone();
    match form {
        FieldForm::Declare => {
            out.append(": ");
            let storage = arg_string(&field.storage, unset);
            out.append(storage.as_str());
        },
        FieldForm::Initial => {
            out.append(": ");
            match &field.storage {
                TypeArg::Param(_) => out.append(unset),
                _ => out.append("None"),
            }
        },
        FieldForm::Move => {
            out.append(": self.");
            out.append(field.name.as_str());
        },
    }
    out
}

/// The listed fields, without the one at `skip` if there is one.
fn field_list(fields: &Vec<BuilderField>, form: FieldForm, skip: Option<usize>, unset: &str) -> (out:
    String)
    ensures
        out@ == listed(
            field_texts(
                unset@,
                views(fields@),
                form,
                match skip {
                    Some(at) => at as int,
                    None => -1,
                },
            ),
        ),
{
    let ghost hole: int = match skip {
        Some(at) => at as int,
        None => -1,
    };
    let ghost all = Seq::new(fields@.len(), |f: int| field_text(unset@, fields@[f]@, form));
    let mut items: Vec<String> = Vec::new();
    let mut f: usize = 0;
    while f < fields.len()
        invariant
            f <= fields.len(),
            hole == match skip {
                Some(at) => at as int,
                None => -1,
            },
            all == Seq::new(fields@.len(), |f: int| field_text(unset@, fields@[f]@, form)),
            items@.len() == if 0 <= hole < f { f - 1 } else { f as int },
            forall|j: int|
                0 <= j < items@.len() ==> (#[trigger] items@[j])@ == all[if 0 <= hole <= j {
                    j + 1
                } else {
                    j
                }],
        decreases fields.len() - f,
    {
        let skipped = match skip {
            Some(at) => at == f,
            None => false,
        };
        if !skipped {
            items.push(field_string(&fields[f], &form, unset));
        }
        f += 1;
    }
    assert(views(items@) =~= field_texts(unset@, views(fields@), form, hole));
    list(&items)
}

fn render_marker(g: &Generated) -> (out: String)
    ensures
        out@ == marker_text(g@),
{
    let mut out = "pub struct ".to_owned();
    out.append(g.unset_type.as_str());
    out.append(";\n");
    out
}

fn render_struct(g: &Generated) -> (out: String)
    ensures
        out@ == struct_text(g@),
{
    let mut out = "pub struct ".to_owned();
    out.append(g.builder_name.as_str());
    out.append("<");
    out.append(arg_list(&g.type_params, g.unset_type.as_str()).as_str());
    out.append("> { ");
    out.append(field_list(&g.fields, FieldForm::Declare, None, g.unset_type.as_str()).as_str());
    out.append("}\n");
    out
}

fn render_alias(g: &Generated) -> (out: String)
    ensures
        out@ == alias_text(g@),
{
    let mut out = "pub type ".to_owned();
    out.append(g.default_builder_type.as_str());
    out.append(" = ");
    out.append(g.builder_name.as_str());
    out.append("<");
    out.append(arg_list(&g.default_args, g.unset_type.as_str()).as_str());
    out.append(">;\n");
    out
}

fn render_entry(g: &Generated) -> (out: String)
    ensures
        out@ == entry_text(g@),
{
    let mut out = "impl ".to_owned();
    out.append(g.struct_name.as_str());
    out.append(" { pub fn ");
    out.append(g.method_name.as_str());
    out.append("() -> ");
    out.append(g.builder_name.as_str());
    out.append("<");
    out.append(arg_list(&g.default_args, g.unset_type.as_str()).as_str());
    out.append("> { ");
    out.append(g.builder_name.as_str());
    out.append(" { ");
    out.append(field_list(&g.fields, FieldForm::Initial, None, g.unset_type.as_str()).as_str());
    out.append("} } }\n");
    out
}

fn render_build(g: &Generated) -> (out: String)
    ensures
        out@ == build_text(g@),
{
    let mut out = "impl ".to_owned();
    out.append(g.builder_name.as_str());
    out.append("<");
    out.append(arg_list(&g.filled_args, g.unset_type.as_str()).as_str());
    out.append("> { pub fn build(self) -> ");
    out.append(g.struct_name.as_str());
    out.append(" { ");
    out.append(g.struct_name.as_str());
    out.append(" { ");
    out.append(field_list(&g.fields, FieldForm::Move, None, g.unset_type.as_str()).as_str());
    out.append("} } }\n");
    out
}

fn render_store(s: &Setter) -> (out: String)
    ensures
        out@ == store_text(s@),
{
    let mut out = s.name.clone();
    if s.wraps {
        out.append(": Some(");
        out.append(s.name.as_str());
        out.append("), ");
    } else {
        out.append(", ");
    }
    out
}

fn render_setter(g: &Generated, s: &Setter) -> (out: String)
    ensures
        out@ == setter_text(g@, s@),
{
    let mut out = "impl<".to_owned();
    out.append(list(&s.decls).as_str());
    out.append("> ");
    out.append(g.builder_name.as_str());
    out.append("<");
    out.append(arg_list(&s.self_args, g.unset_type.as_str()).as_str());
    out.append("> { pub fn ");
    out.append(s.name.as_str());
    out.append("(self, ");
    out.append(s.name.as_str());
    out.append(": ");
    out.append(s.arg_type.as_str());
    out.append(") -> ");
    out.append(g.builder_name.as_str());
    out.append("<");
    out.append(arg_list(&s.ret_args, g.unset_type.as_str()).as_str());
    out.append("> { ");
    out.append(g.builder_name.as_str());
    out.append(" { ");
    out.append(render_store(s).as_str());
    out.append(field_list(&g.fields, FieldForm::Move, Some(s.target), g.unset_type.as_str()).as_str());
    out.append("} } }\n");
    out
}

fn render_setters(g: &Generated) -> (out: String)
    ensures
        out@ == setters_text(g@, g@.setters),
{
    let mut out = String::new();
    let mut i: usize = 0;
    assert(g@.setters.take(0) =~= Seq::<SetterView>::empty());
    while i < g.setters.len()
        invariant
            i <= g.setters.len(),
            g@.setters.len() == g.setters@.len(),
            out@ == setters_text(g@, g@.setters.take(i as int)),
        decreases g.setters.len() - i,
    {
        proof {
            let next = g@.setters.take(i + 1);
            assert(next.drop_last() =~= g@.setters.take(i as int));
            assert(next.last() == g.setters@[i as int]@);
        }
        out.append(render_setter(g, &g.setters[i]).as_str());
        i += 1;
    }
    assert(g@.setters.take(i as int) =~= g@.setters);
    out
}

impl Generated {
    /// The source text of everything that is generated.
    pub fn render(&self) -> (text: String)
        ensures
            text@ == rendered(self@),
    {
        let mut out = render_marker(self);
        out.append(render_struct(self).as_str());
        out.append(render_alias(self).as_str());
        out.append(render_entry(self).as_str());
        out.append(render_build(self).as_str());
        out.append(render_setters(self).as_str());
        out
    }
}

/// What is derived for a definition: the text of its builder, or the reason
/// why there is none.
pub open spec fn derived(input: RecordDef) -> Result<Seq<char>, GenerateError> {
    match expanded(input) {
        Ok(plan) => Ok(rendered(plan)),
        Err(e) => Err(e),
    }
}

/// Generates the source text of the builder for a definition.
pub fn derive_safe_builder(input: &RecordDef) -> (out: Result<String, GenerateError>)
    ensures
        match out {
            Ok(text) => derived(*input) == Ok::<Seq<char>, GenerateError>(text@),
            Err(e) => derived(*input) == Err::<Seq<char>, GenerateError>(e),
        },
{
    match expand(input) {
        Ok(plan) => Ok(plan.render()),
        Err(e) => Err(e),
    }
}

} // verus!
