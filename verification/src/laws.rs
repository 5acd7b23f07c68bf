//! What holds of every generated builder and of every chain of calls on it.

use vstd::prelude::*;
use crate::attr::method_name_of;
use crate::naming::{field_type_name, unset_type_name};
use crate::expander::{
    expanded, optional_setter, planned, required_names, required_setter, GeneratedView,
    RecordDef, SetterView,
};
use crate::schema::{
    distinct_names, lemma_positions_complete, lemma_positions_sound, positions, FieldSpecView,
};
use crate::typestate::{
    accepts, applies, buildable, built, entered, instantiated, selected, selected_from,
    slot_accepts, slot_of, stepped, InstanceView,
};
use crate::typevars::{filled_args, masked_args, param_args, type_map};

verus! {

/// The builder that a chain of setter calls leads to from the entry point, if
/// every call of the chain is accepted. A call is a setter's name and the
/// value passed to it.
pub open spec fn chained<V>(g: GeneratedView, calls: Seq<(Seq<char>, V)>) -> Option<
    InstanceView<V>,
>
    decreases calls.len(),
{
    if calls.len() == 0 {
        entered(g, g.method_name)
    } else {
        match chained(g, calls.drop_last()) {
            Some(inst) => stepped(g, inst, calls.last().0, calls.last().1),
            None => None,
        }
    }
}

/// Whether the chain calls the setter `name` at least once.
pub open spec fn was_set<V>(calls: Seq<(Seq<char>, V)>, name: Seq<char>) -> bool {
    exists|k: int| 0 <= k < calls.len() && (#[trigger] calls[k]).0 == name
}

/// The value of the last call of the setter `name` in the chain.
pub open spec fn last_value<V>(calls: Seq<(Seq<char>, V)>, name: Seq<char>) -> Option<V>
    decreases calls.len(),
{
    if calls.len() == 0 {
        None
    } else if calls.last().0 == name {
        Some(calls.last().1)
    } else {
        last_value(calls.drop_last(), name)
    }
}

/// The builder that a chain leads to, told from the calls alone: a position
/// of the typestate is filled, with the declared type of its field, exactly
/// if the field's setter was called, and each field holds the value that its
/// setter was last called with.
pub open spec fn outcome<V>(fields: Seq<FieldSpecView>, calls: Seq<(Seq<char>, V)>)
    -> InstanceView<V> {
    let at = positions(fields, true);
    InstanceView {
        state: Seq::new(
            at.len(),
            |i: int|
                if was_set(calls, fields[at[i]].name) {
                    Some(fields[at[i]].declared_type)
                } else {
                    None
                },
        ),
        slots: Seq::new(fields.len(), |f: int| last_value(calls, fields[f].name)),
    }
}

/// The field that the setter at place `s` of the plan sets.
pub open spec fn target_of(fields: Seq<FieldSpecView>, s: int) -> int {
    let n = positions(fields, true).len();
    if s < n {
        positions(fields, true)[s]
    } else {
        positions(fields, false)[s - n]
    }
}

pub proof fn lemma_was_set_unfold<V>(calls: Seq<(Seq<char>, V)>, name: Seq<char>)
    requires
        calls.len() > 0,
    ensures
        was_set(calls, name) <==> (calls.last().0 == name || was_set(calls.drop_last(), name)),
{
    let init = calls.drop_last();
    if was_set(calls, name) {
        let k = choose|k: int| 0 <= k < calls.len() && (#[trigger] calls[k]).0 == name;
        if k < calls.len() - 1 {
            assert(init[k].0 == name);
        }
    }
    if was_set(init, name) {
        let k = choose|k: int| 0 <= k < init.len() && (#[trigger] init[k]).0 == name;
        assert(calls[k].0 == name);
    }
    if calls.last().0 == name {
        assert(calls[calls.len() - 1].0 == name);
    }
}

/// A setter has a last value exactly if it was called.
pub proof fn lemma_last_value_is_set<V>(calls: Seq<(Seq<char>, V)>, name: Seq<char>)
    ensures
        last_value(calls, name) is Some <==> was_set(calls, name),
    decreases calls.len(),
{
    if calls.len() > 0 {
        lemma_was_set_unfold(calls, name);
        lemma_last_value_is_set(calls.drop_last(), name);
    }
}

/// The last value of a setter is the value of a call after which the setter
/// is not called again.
pub proof fn lemma_last_value_is_last<V>(calls: Seq<(Seq<char>, V)>, name: Seq<char>)
    ensures
        last_value(calls, name) matches Some(v) ==> exists|k: int|
            0 <= k < calls.len() && #[trigger] calls[k] == (name, v) && forall|j: int|
                k < j < calls.len() ==> (#[trigger] calls[j]).0 != name,
    decreases calls.len(),
{
    if calls.len() > 0 {
        let init = calls.drop_last();
        if calls.last().0 == name {
            let k = calls.len() - 1;
            assert(calls[k] == (name, calls.last().1));
        } else {
            lemma_last_value_is_last(init, name);
            if last_value(init, name) is Some {
                let v = last_value(init, name)->Some_0;
                let k = choose|k: int|
                    0 <= k < init.len() && #[trigger] init[k] == (name, v) && forall|j: int|
                        k < j < init.len() ==> (#[trigger] init[j]).0 != name;
                assert(calls[k] == (name, v));
                assert forall|j: int| k < j < calls.len() implies (#[trigger] calls[j]).0
                    != name by {
                    if j < init.len() {
                        assert(init[j].0 != name);
                    }
                }
            }
        }
    }
}

proof fn lemma_distinct_init(fields: Seq<FieldSpecView>)
    requires
        distinct_names(fields),
        fields.len() > 0,
    ensures
        distinct_names(fields.drop_last()),
{
    let init = fields.drop_last();
    assert forall|a: int, b: int| 0 <= a < b < init.len() implies (#[trigger] init[a]).name != (
    #[trigger] init[b]).name by {
        assert(fields[a].name != fields[b].name);
    }
}

proof fn lemma_names_differ(fields: Seq<FieldSpecView>, a: int, b: int)
    requires
        distinct_names(fields),
        0 <= a < fields.len(),
        0 <= b < fields.len(),
        a != b,
    ensures
        fields[a].name != fields[b].name,
{
    if a < b {
        assert(fields[a].name != fields[b].name);
    } else {
        assert(fields[b].name != fields[a].name);
    }
}

/// Where names are distinct the type map gives each field its own type.
pub proof fn lemma_type_map_own(fields: Seq<FieldSpecView>, f: int)
    requires
        distinct_names(fields),
        0 <= f < fields.len(),
    ensures
        type_map(fields).contains_key(fields[f].name),
        type_map(fields)[fields[f].name] == fields[f].declared_type,
    decreases fields.len(),
{
    let last = fields.len() - 1;
    if f < last {
        lemma_names_differ(fields, f, last);
        lemma_distinct_init(fields);
        lemma_type_map_own(fields.drop_last(), f);
    }
}

/// The setter at place `s` of a plan: which field it sets and for which
/// typestates it is defined.
proof fn lemma_setter_shape(
    record: Seq<char>,
    method: Seq<char>,
    fields: Seq<FieldSpecView>,
    s: int,
)
    requires
        0 <= s < positions(fields, true).len() + positions(fields, false).len(),
    ensures
        ({
            let g = planned(record, method, fields);
            let n = positions(fields, true).len();
            let t = target_of(fields, s);
            &&& g.setters.len() == n + positions(fields, false).len()
            &&& 0 <= t < fields.len()
            &&& fields[t].required == (s < n)
            &&& g.setters[s].target == t
            &&& g.setters[s].name == fields[t].name
            &&& s < n ==> g.setters[s] == required_setter(fields, s)
            &&& s >= n ==> g.setters[s] == optional_setter(fields, s - n)
        }),
{
    lemma_positions_sound(fields, true);
    lemma_positions_sound(fields, false);
}

/// Two setters of a plan set two fields.
proof fn lemma_targets_differ(fields: Seq<FieldSpecView>, s1: int, s2: int)
    requires
        0 <= s1 < positions(fields, true).len() + positions(fields, false).len(),
        0 <= s2 < positions(fields, true).len() + positions(fields, false).len(),
        s1 != s2,
    ensures
        target_of(fields, s1) != target_of(fields, s2),
{
    lemma_positions_sound(fields, true);
    lemma_positions_sound(fields, false);
    let n = positions(fields, true).len();
    let t1 = target_of(fields, s1);
    let t2 = target_of(fields, s2);
    if s1 < n && s2 < n {
        if s1 < s2 {
            assert(positions(fields, true)[s1] < positions(fields, true)[s2]);
        } else {
            assert(positions(fields, true)[s2] < positions(fields, true)[s1]);
        }
    } else if s1 >= n && s2 >= n {
        if s1 < s2 {
            assert(positions(fields, false)[s1 - n] < positions(fields, false)[s2 - n]);
        } else {
            assert(positions(fields, false)[s2 - n] < positions(fields, false)[s1 - n]);
        }
    } else {
        assert(fields[t1].required != fields[t2].required);
    }
}

/// Every field has its setter.
proof fn lemma_setter_exists(fields: Seq<FieldSpecView>, f: int) -> (s: int)
    requires
        0 <= f < fields.len(),
    ensures
        0 <= s < positions(fields, true).len() + positions(fields, false).len(),
        target_of(fields, s) == f,
        fields[f].required == (s < positions(fields, true).len()),
{
    let n = positions(fields, true).len();
    if fields[f].required {
        lemma_positions_complete(fields, true, f);
        choose|k: int| 0 <= k < n && #[trigger] positions(fields, true)[k] == f
    } else {
        lemma_positions_complete(fields, false, f);
        let k = choose|k: int|
            0 <= k < positions(fields, false).len() && #[trigger] positions(fields, false)[k]
                == f;
        n + k
    }
}

/// A call finds the setter of a required field exactly where the field's
/// position is unset, and the setter of an optional field everywhere.
proof fn lemma_applies(
    record: Seq<char>,
    method: Seq<char>,
    fields: Seq<FieldSpecView>,
    state: Seq<Option<Seq<char>>>,
    name: Seq<char>,
    s: int,
)
    requires
        0 <= s < positions(fields, true).len() + positions(fields, false).len(),
        state.len() == positions(fields, true).len(),
    ensures
        applies(planned(record, method, fields).setters[s], state, name) <==> (fields[target_of(
            fields,
            s,
        )].name == name && (s < positions(fields, true).len() ==> state[s] is None)),
{
    lemma_setter_shape(record, method, fields, s);
    let g = planned(record, method, fields);
    let n = positions(fields, true).len();
    let pattern = g.setters[s].self_args;
    if s < n {
        assert(pattern == masked_args(required_names(fields), s));
        if accepts(pattern, state) {
            assert(slot_accepts(pattern[s], state[s]));
        }
        if state[s] is None {
            assert forall|j: int| 0 <= j < pattern.len() implies slot_accepts(
                #[trigger] pattern[j],
                state[j],
            ) by {}
        }
    } else {
        assert(pattern == param_args(required_names(fields)));
        assert forall|j: int| 0 <= j < pattern.len() implies slot_accepts(
            #[trigger] pattern[j],
            state[j],
        ) by {}
    }
}

/// What `selected_from` finds is the first setter that applies.
proof fn lemma_selected_sound(
    setters: Seq<SetterView>,
    state: Seq<Option<Seq<char>>>,
    name: Seq<char>,
    from: int,
)
    requires
        0 <= from,
    ensures
        match selected_from(setters, state, name, from) {
            Some(i) => from <= i < setters.len() && applies(setters[i], state, name) && forall|
                j: int,
            |
                from <= j < i ==> !applies(#[trigger] setters[j], state, name),
            None => forall|j: int|
                from <= j < setters.len() ==> !applies(#[trigger] setters[j], state, name),
        },
    decreases setters.len() - from,
{
    if from < setters.len() && !applies(setters[from], state, name) {
        lemma_selected_sound(setters, state, name, from + 1);
    }
}

/// On a builder of a plan whose fields have distinct names, a call finds the
/// setter at place `s` exactly if that is the setter of the named field and it
/// applies.
proof fn lemma_selected_is(
    record: Seq<char>,
    method: Seq<char>,
    fields: Seq<FieldSpecView>,
    state: Seq<Option<Seq<char>>>,
    name: Seq<char>,
    s: int,
)
    requires
        distinct_names(fields),
        0 <= s < positions(fields, true).len() + positions(fields, false).len(),
        state.len() == positions(fields, true).len(),
        fields[target_of(fields, s)].name == name,
    ensures
        selected(planned(record, method, fields).setters, state, name) == if s < positions(
            fields,
            true,
        ).len() && state[s] is Some {
            None::<int>
        } else {
            Some(s)
        },
{
    let g = planned(record, method, fields);
    lemma_setter_shape(record, method, fields, s);
    lemma_selected_sound(g.setters, state, name, 0);
    lemma_applies(record, method, fields, state, name, s);
    assert forall|j: int| 0 <= j < g.setters.len() && j != s implies !applies(
        #[trigger] g.setters[j],
        state,
        name,
    ) by {
        lemma_setter_shape(record, method, fields, j);
        lemma_targets_differ(fields, j, s);
        lemma_names_differ(fields, target_of(fields, j), target_of(fields, s));
    }
    match selected(g.setters, state, name) {
        Some(i) => {
            assert(applies(g.setters[i], state, name));
            assert(i == s);
        },
        None => {
            assert(!applies(g.setters[s], state, name));
        },
    }
}

/// The setter of a required field is defined exactly for the builders in
/// which the field's position is unset, whatever the other positions hold, so
/// it cannot be called twice. It fills that position with the field's
/// declared type, stores the value in the field, and leaves every other
/// position and field as it was.
pub proof fn law_required_setter<V>(
    record: Seq<char>,
    method: Seq<char>,
    fields: Seq<FieldSpecView>,
    inst: InstanceView<V>,
    i: int,
    value: V,
)
    requires
        distinct_names(fields),
        0 <= i < positions(fields, true).len(),
        inst.state.len() == positions(fields, true).len(),
    ensures
        ({
            let f = positions(fields, true)[i];
            stepped(planned(record, method, fields), inst, fields[f].name, value) == if inst.state[i] is None {
                Some(
                    InstanceView {
                        state: inst.state.update(i, Some(fields[f].declared_type)),
                        slots: inst.slots.update(f, Some(value)),
                    },
                )
            } else {
                None
            }
        }),
{
    let g = planned(record, method, fields);
    let f = positions(fields, true)[i];
    lemma_positions_sound(fields, true);
    lemma_setter_shape(record, method, fields, i);
    lemma_selected_is(record, method, fields, inst.state, fields[f].name, i);
    lemma_type_map_own(fields, f);
    if inst.state[i] is None {
        assert(instantiated(g.setters[i].ret_args, inst.state) =~= inst.state.update(
            i,
            Some(fields[f].declared_type),
        ));
    }
}

/// The setter of an optional field is defined for every builder. It stores
/// the value in the field and leaves the typestate and every other field as
/// they were.
pub proof fn law_optional_setter<V>(
    record: Seq<char>,
    method: Seq<char>,
    fields: Seq<FieldSpecView>,
    inst: InstanceView<V>,
    f: int,
    value: V,
)
    requires
        distinct_names(fields),
        0 <= f < fields.len(),
        !fields[f].required,
        inst.state.len() == positions(fields, true).len(),
    ensures
        stepped(planned(record, method, fields), inst, fields[f].name, value) == Some(
            InstanceView { state: inst.state, slots: inst.slots.update(f, Some(value)) },
        ),
{
    let g = planned(record, method, fields);
    let s = lemma_setter_exists(fields, f);
    lemma_setter_shape(record, method, fields, s);
    lemma_selected_is(record, method, fields, inst.state, fields[f].name, s);
    assert(instantiated(g.setters[s].ret_args, inst.state) =~= inst.state);
}

/// A call whose name is no field's name is not accepted.
pub proof fn law_unknown_setter<V>(
    record: Seq<char>,
    method: Seq<char>,
    fields: Seq<FieldSpecView>,
    inst: InstanceView<V>,
    name: Seq<char>,
    value: V,
)
    requires
        forall|f: int| 0 <= f < fields.len() ==> (#[trigger] fields[f]).name != name,
    ensures
        stepped(planned(record, method, fields), inst, name, value) is None,
{
    let g = planned(record, method, fields);
    lemma_selected_sound(g.setters, inst.state, name, 0);
    if selected(g.setters, inst.state, name) is Some {
        let s = selected(g.setters, inst.state, name)->Some_0;
        lemma_setter_shape(record, method, fields, s);
        assert(fields[target_of(fields, s)].name == name);
    }
}

/// Where a chain of calls is accepted, the builder it leads to is told from
/// the calls alone, whatever their order.
pub proof fn law_chain_outcome<V>(
    record: Seq<char>,
    method: Seq<char>,
    fields: Seq<FieldSpecView>,
    calls: Seq<(Seq<char>, V)>,
)
    requires
        distinct_names(fields),
    ensures
        chained(planned(record, method, fields), calls) matches Some(inst) ==> inst == outcome(
            fields,
            calls,
        ),
    decreases calls.len(),
{
    let g = planned(record, method, fields);
    let at = positions(fields, true);
    let want = outcome(fields, calls);
    lemma_positions_sound(fields, true);
    if calls.len() == 0 {
        let inst = chained(g, calls)->Some_0;
        assert(inst.state =~= want.state);
        assert(inst.slots =~= want.slots);
    } else if chained(g, calls) is Some {
        let init = calls.drop_last();
        let name = calls.last().0;
        let value = calls.last().1;
        law_chain_outcome(record, method, fields, init);
        let before = chained(g, init)->Some_0;
        let after = chained(g, calls)->Some_0;
        assert(before == outcome(fields, init));
        assert(after == stepped(g, before, name, value)->Some_0);
        let s = selected(g.setters, before.state, name)->Some_0;
        lemma_selected_sound(g.setters, before.state, name, 0);
        lemma_setter_shape(record, method, fields, s);
        let t = target_of(fields, s);
        lemma_type_map_own(fields, t);
        assert forall|i: int| 0 <= i < at.len() implies after.state[i] == want.state[i] by {
            lemma_was_set_unfold(calls, fields[at[i]].name);
            if at[i] != t {
                lemma_names_differ(fields, at[i], t);
            }
            if s < at.len() && i != s {
                assert(at[i] != at[s]) by {
                    lemma_targets_differ(fields, i, s);
                }
            }
        }
        assert(after.state =~= want.state);
        assert forall|f: int| 0 <= f < fields.len() implies after.slots[f] == want.slots[f] by {
            if f != t {
                lemma_names_differ(fields, f, t);
            }
        }
        assert(after.slots =~= want.slots);
    }
}

/// Coverage: after an accepted chain of calls `build` can be called exactly if
/// the setter of every required field was called, in whatever order and with
/// whatever calls of other setters in between. This holds of every schema,
/// whatever the types of its fields.
pub proof fn law_coverage<V>(
    record: Seq<char>,
    method: Seq<char>,
    fields: Seq<FieldSpecView>,
    calls: Seq<(Seq<char>, V)>,
)
    requires
        distinct_names(fields),
        chained(planned(record, method, fields), calls) is Some,
    ensures
        buildable(
            planned(record, method, fields),
            chained(planned(record, method, fields), calls)->Some_0.state,
        ) <==> (forall|f: int|
            0 <= f < fields.len() && (#[trigger] fields[f]).required ==> was_set(
                calls,
                fields[f].name,
            )),
{
    let g = planned(record, method, fields);
    let at = positions(fields, true);
    let state = chained(g, calls)->Some_0.state;
    law_chain_outcome(record, method, fields, calls);
    lemma_positions_sound(fields, true);
    assert forall|i: int| 0 <= i < at.len() implies slot_of(#[trigger] g.filled_args[i])
        == Some(fields[at[i]].declared_type) by {
        lemma_type_map_own(fields, at[i]);
    }
    if buildable(g, state) {
        assert forall|f: int| 0 <= f < fields.len() && (#[trigger] fields[f]).required implies was_set(
            calls,
            fields[f].name,
        ) by {
            lemma_positions_complete(fields, true, f);
            let i = choose|i: int| 0 <= i < at.len() && #[trigger] at[i] == f;
            assert(slot_accepts(g.filled_args[i], state[i]));
        }
    }
    if forall|f: int|
        0 <= f < fields.len() && (#[trigger] fields[f]).required ==> was_set(
            calls,
            fields[f].name,
        ) {
        assert forall|i: int| 0 <= i < g.filled_args.len() implies slot_accepts(
            #[trigger] g.filled_args[i],
            state[i],
        ) by {
            assert(fields[at[i]].required);
        }
    }
}

/// Value fidelity: the record that `build` produces after an accepted chain
/// holds, field by field, the value that the field's setter was last called
/// with.
pub proof fn law_value_fidelity<V>(
    record: Seq<char>,
    method: Seq<char>,
    fields: Seq<FieldSpecView>,
    calls: Seq<(Seq<char>, V)>,
)
    requires
        distinct_names(fields),
        chained(planned(record, method, fields), calls) is Some,
        built(
            planned(record, method, fields),
            chained(planned(record, method, fields), calls)->Some_0,
        ) is Some,
    ensures
        ({
            let g = planned(record, method, fields);
            let values = built(g, chained(g, calls)->Some_0)->Some_0;
            &&& values.len() == fields.len()
            &&& forall|f: int|
                0 <= f < fields.len() ==> #[trigger] values[f] == last_value(calls, fields[f].name)
        }),
{
    law_chain_outcome(record, method, fields, calls);
}

/// Optional defaulting: after an accepted chain a field whose setter was
/// never called holds nothing, and a field whose setter was called holds the
/// value of the last of these calls.
pub proof fn law_optional_defaulting<V>(
    record: Seq<char>,
    method: Seq<char>,
    fields: Seq<FieldSpecView>,
    calls: Seq<(Seq<char>, V)>,
    f: int,
)
    requires
        distinct_names(fields),
        0 <= f < fields.len(),
        chained(planned(record, method, fields), calls) is Some,
    ensures
        ({
            let slot = chained(planned(record, method, fields), calls)->Some_0.slots[f];
            &&& !was_set(calls, fields[f].name) ==> slot is None
            &&& slot matches Some(v) ==> exists|k: int|
                0 <= k < calls.len() && #[trigger] calls[k] == (fields[f].name, v) && forall|
                    j: int,
                |
                    k < j < calls.len() ==> (#[trigger] calls[j]).0 != fields[f].name
        }),
{
    law_chain_outcome(record, method, fields, calls);
    lemma_last_value_is_set(calls, fields[f].name);
    lemma_last_value_is_last(calls, fields[f].name);
}

/// The marker of an unset position is the name of no type parameter, so no
/// generated signature can take the one for the other.
pub proof fn law_unset_is_no_parameter(record: Seq<char>, ident: Seq<char>)
    ensures
        unset_type_name(record) != field_type_name(ident),
{
    reveal_strlit("BuilderUnset");
    reveal_strlit("Type");
    let marker = unset_type_name(record);
    let param = field_type_name(ident);
    assert(marker[marker.len() - 1] == 't');
    assert(param[param.len() - 1] == 'e');
}

/// Renaming: the entry point answers to one name only, the one that the
/// definition's attributes ask for, which is `builder` where they ask for
/// none.
pub proof fn law_renaming<V>(input: RecordDef, name: Seq<char>)
    requires
        expanded(input) is Ok,
    ensures
        method_name_of(input.attrs@) is Ok,
        expanded(input)->Ok_0.method_name == method_name_of(input.attrs@)->Ok_0,
        entered::<V>(expanded(input)->Ok_0, name) is Some <==> name == method_name_of(
            input.attrs@,
        )->Ok_0,
{
}

/// Whether a call of the setter `name` is in order after the calls `prior`:
/// it names a field, and not a required field that is set already.
pub open spec fn permitted<V>(
    fields: Seq<FieldSpecView>,
    prior: Seq<(Seq<char>, V)>,
    name: Seq<char>,
) -> bool {
    exists|f: int|
        0 <= f < fields.len() && (#[trigger] fields[f]).name == name && (fields[f].required
            ==> !was_set(prior, name))
}

/// Whether every call of the chain is in order after the calls before it.
pub open spec fn orderly<V>(fields: Seq<FieldSpecView>, calls: Seq<(Seq<char>, V)>) -> bool {
    forall|k: int|
        0 <= k < calls.len() ==> permitted(fields, #[trigger] calls.take(k), calls[k].0)
}

/// Any order: a chain of calls is accepted exactly if each call names a field
/// and no required field is set twice. The order of the calls plays no part.
pub proof fn law_any_order<V>(
    record: Seq<char>,
    method: Seq<char>,
    fields: Seq<FieldSpecView>,
    calls: Seq<(Seq<char>, V)>,
)
    requires
        distinct_names(fields),
    ensures
        chained(planned(record, method, fields), calls) is Some <==> orderly(fields, calls),
    decreases calls.len(),
{
    let g = planned(record, method, fields);
    if calls.len() > 0 {
        let init = calls.drop_last();
        let name = calls.last().0;
        let value = calls.last().1;
        law_any_order(record, method, fields, init);
        assert(calls.take(calls.len() - 1) =~= init);
        assert forall|k: int| 0 <= k < init.len() implies #[trigger] calls.take(k) == init.take(k)
            && calls[k] == init[k] by {
            assert(calls.take(k) =~= init.take(k));
        }
        assert(orderly(fields, calls) <==> (orderly(fields, init) && permitted(fields, init, name)))
            by {
            if orderly(fields, calls) {
                assert forall|k: int| 0 <= k < init.len() implies permitted(
                    fields,
                    #[trigger] init.take(k),
                    init[k].0,
                ) by {
                    assert(permitted(fields, calls.take(k), calls[k].0));
                }
                assert(permitted(fields, calls.take(calls.len() - 1), calls[calls.len() - 1].0));
            }
            if orderly(fields, init) && permitted(fields, init, name) {
                assert forall|k: int| 0 <= k < calls.len() implies permitted(
                    fields,
                    #[trigger] calls.take(k),
                    calls[k].0,
                ) by {
                    if k < init.len() {
                        assert(permitted(fields, init.take(k), init[k].0));
                    }
                }
            }
        }
        if chained(g, init) is Some {
            law_chain_outcome(record, method, fields, init);
            let before = chained(g, init)->Some_0;
            lemma_positions_sound(fields, true);
            if permitted(fields, init, name) {
                let f = choose|f: int|
                    0 <= f < fields.len() && (#[trigger] fields[f]).name == name && (
                    fields[f].required ==> !was_set(init, name));
                let s = lemma_setter_exists(fields, f);
                lemma_selected_is(record, method, fields, before.state, name, s);
            }
            if stepped(g, before, name, value) is Some {
                let s = selected(g.setters, before.state, name)->Some_0;
                lemma_selected_sound(g.setters, before.state, name, 0);
                lemma_setter_shape(record, method, fields, s);
                lemma_applies(record, method, fields, before.state, name, s);
                let t = target_of(fields, s);
                assert(fields[t].name == name);
            }
        }
    }
}

} // verus!
