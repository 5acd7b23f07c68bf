//! What the generated interface means.
//!
//! The type of a builder is its typestate: for each required field, whether
//! its position is unset or which type fills it. A call is accepted where the
//! compiler would find a method for it: a setter whose `impl` matches the
//! typestate. The functions here follow a chain of calls the way the compiler
//! and the generated bodies would, on values of any type `V`.

use vstd::prelude::*;
use vstd::string::*;
use crate::expander::{well_formed, Generated, GeneratedView, Setter, SetterView};
use crate::typevars::{TypeArg, TypeArgView};
use crate::views::{text_of, texts, views};

verus! {

/// A builder while it is being filled.
#[derive(Debug, Clone, PartialEq, Eq)]
pub struct BuilderInstance<V> {
    /// The positions of the builder's type: `None` for one that is unset,
    /// else the type that fills it.
    pub state: Vec<Option<String>>,
    /// The value of each field of the record, in declaration order; `None`
    /// where nothing is stored yet.
    pub slots: Vec<Option<V>>,
}

pub struct InstanceView<V> {
    pub state: Seq<Option<Seq<char>>>,
    pub slots: Seq<Option<V>>,
}

impl<V> View for BuilderInstance<V> {
    type V = InstanceView<V>;

    open spec fn view(&self) -> InstanceView<V> {
        InstanceView { state: texts(self.state@), slots: self.slots@ }
    }
}

/// The record that `build` produces: the value of each field in declaration
/// order, `None` for an optional field that was never set.
#[derive(Debug, Clone, PartialEq, Eq)]
pub struct Record<V> {
    pub values: Vec<Option<V>>,
}

/// What a type argument says of a position: that it is unset, or which type
/// fills it. The marker of an unset position is no type that fills one.
pub open spec fn slot_of(arg: TypeArgView) -> Option<Seq<char>> {
    match arg {
        TypeArgView::Unset => None,
        TypeArgView::Param(name) => Some(name),
        TypeArgView::Filled(text) => Some(text),
    }
}

/// A type parameter stands for whatever the position holds; anything else
/// must be what the position holds.
pub open spec fn slot_accepts(pattern: TypeArgView, actual: Option<Seq<char>>) -> bool {
    pattern is Param || slot_of(pattern) == actual
}

/// Whether an `impl` for `Builder<pattern>` applies to a builder in `state`.
pub open spec fn accepts(pattern: Seq<TypeArgView>, state: Seq<Option<Seq<char>>>) -> bool {
    &&& pattern.len() == state.len()
    &&& forall|j: int| 0 <= j < pattern.len() ==> slot_accepts(#[trigger] pattern[j], state[j])
}

/// The typestate that a signature returns: each type parameter is what the
/// builder had at its position.
pub open spec fn instantiated(ret: Seq<TypeArgView>, state: Seq<Option<Seq<char>>>) -> Seq<
    Option<Seq<char>>,
> {
    Seq::new(
        ret.len(),
        |j: int|
            if ret[j] is Param {
                state[j]
            } else {
                slot_of(ret[j])
            },
    )
}

/// Whether a call of `method` on a builder in `state` finds this setter.
pub open spec fn applies(s: SetterView, state: Seq<Option<Seq<char>>>, method: Seq<char>) -> bool {
    s.name == method && accepts(s.self_args, state)
}

/// The first setter from position `from` on that the call finds.
pub open spec fn selected_from(
    setters: Seq<SetterView>,
    state: Seq<Option<Seq<char>>>,
    method: Seq<char>,
    from: int,
) -> Option<int>
    decreases setters.len() - from,
{
    if from < 0 || from >= setters.len() {
        None
    } else if applies(setters[from], state, method) {
        Some(from)
    } else {
        selected_from(setters, state, method, from + 1)
    }
}

/// The setter that a call of `method` on a builder in `state` runs.
pub open spec fn selected(
    setters: Seq<SetterView>,
    state: Seq<Option<Seq<char>>>,
    method: Seq<char>,
) -> Option<int> {
    selected_from(setters, state, method, 0)
}

/// The builder that the entry point returns, if `method` is its name: every
/// position unset, nothing stored.
pub open spec fn entered<V>(g: GeneratedView, method: Seq<char>) -> Option<InstanceView<V>> {
    if method == g.method_name {
        Some(
            InstanceView {
                state: Seq::new(g.default_args.len(), |i: int| slot_of(g.default_args[i])),
                slots: Seq::new(g.fields.len(), |f: int| None),
            },
        )
    } else {
        None
    }
}

/// The builder after a call of `method` with `value`, if the call is
/// accepted: the typestate that the setter returns, and the value stored in
/// the setter's field.
pub open spec fn stepped<V>(g: GeneratedView, inst: InstanceView<V>, method: Seq<char>, value: V)
    -> Option<InstanceView<V>> {
    match selected(g.setters, inst.state, method) {
        Some(i) => Some(
            InstanceView {
                state: instantiated(g.setters[i].ret_args, inst.state),
                slots: inst.slots.update(g.setters[i].target, Some(value)),
            },
        ),
        None => None,
    }
}

/// Whether `build` can be called on a builder in `state`.
pub open spec fn buildable(g: GeneratedView, state: Seq<Option<Seq<char>>>) -> bool {
    accepts(g.filled_args, state)
}

/// The values of the record that `build` produces, if it can be called.
pub open spec fn built<V>(g: GeneratedView, inst: InstanceView<V>) -> Option<Seq<Option<V>>> {
    if buildable(g, inst.state) {
        Some(inst.slots)
    } else {
        None
    }
}

/// Whether a builder is one of this plan's.
pub open spec fn fits<V>(inst: InstanceView<V>, g: GeneratedView) -> bool {
    inst.state.len() == g.default_args.len() && inst.slots.len() == g.fields.len()
}

fn arg_matches(pattern: &TypeArg, actual: &Option<String>) -> (b: bool)
    ensures
        b == slot_accepts(pattern@, text_of(*actual)),
{
    match pattern {
        TypeArg::Unset => actual.is_none(),
        TypeArg::Param(_) => true,
        TypeArg::Filled(text) => match actual {
            Some(found) => *text == *found,
            None => false,
        },
    }
}

fn state_accepted(pattern: &Vec<TypeArg>, state: &Vec<Option<String>>) -> (b: bool)
    ensures
        b == accepts(views(pattern@), texts(state@)),
{
    if pattern.len() != state.len() {
        return false;
    }
    let mut j: usize = 0;
    while j < pattern.len()
        invariant
            j <= pattern.len(),
            pattern.len() == state.len(),
            forall|k: int|
                0 <= k < j ==> slot_accepts(
                    #[trigger] views(pattern@)[k],
                    texts(state@)[k],
                ),
        decreases pattern.len() - j,
    {
        if !arg_matches(&pattern[j], &state[j]) {
            assert(!slot_accepts(views(pattern@)[j as int], texts(state@)[j as int]));
            return false;
        }
        j += 1;
    }
    true
}

fn instantiate(ret: &Vec<TypeArg>, state: &Vec<Option<String>>) -> (out: Vec<Option<String>>)
    requires
        ret.len() == state.len(),
    ensures
        texts(out@) == instantiated(views(ret@), texts(state@)),
{
    let ghost want = instantiated(views(ret@), texts(state@));
    let mut out: Vec<Option<String>> = Vec::new();
    let mut j: usize = 0;
    while j < ret.len()
        invariant
            j <= ret.len(),
            ret.len() == state.len(),
            out@.len() == j,
            want == instantiated(views(ret@), texts(state@)),
            forall|k: int| 0 <= k < j ==> text_of(#[trigger] out@[k]) == want[k],
        decreases ret.len() - j,
    {
        let slot = match &ret[j] {
            TypeArg::Unset => None,
            TypeArg::Param(_) => match &state[j] {
                Some(text) => Some(text.clone()),
                None => None,
            },
            TypeArg::Filled(text) => Some(text.clone()),
        };
        out.push(slot);
        j += 1;
    }
    assert(texts(out@) =~= want);
    out
}

/// Finds the setter that a call of `method` runs.
fn select(setters: &Vec<Setter>, state: &Vec<Option<String>>, method: &str) -> (found: Option<
    usize,
>)
    ensures
        match found {
            Some(i) => selected(views(setters@), texts(state@), method@) == Some(i as int) && i
                < setters.len(),
            None => selected(views(setters@), texts(state@), method@) is None,
        },
{
    let name = method.to_owned();
    let mut i: usize = 0;
    while i < setters.len()
        invariant
            i <= setters.len(),
            name@ == method@,
            selected(views(setters@), texts(state@), method@) == selected_from(
                views(setters@),
                texts(state@),
                method@,
                i as int,
            ),
        decreases setters.len() - i,
    {
        assert(views(setters@)[i as int] == setters@[i as int]@);
        if setters[i].name == name && state_accepted(&setters[i].self_args, state) {
            return Some(i);
        }
        i += 1;
    }
    None
}

impl Generated {
    /// Calls the entry point by name.
    pub fn enter<V>(&self, method: &str) -> (out: Option<BuilderInstance<V>>)
        ensures
            match out {
                Some(inst) => entered::<V>(self@, method@) == Some(inst@) && fits(inst@, self@),
                None => entered::<V>(self@, method@) is None,
            },
    {
        if self.method_name != method.to_owned() {
            return None;
        }
        let mut state: Vec<Option<String>> = Vec::new();
        let mut i: usize = 0;
        while i < self.default_args.len()
            invariant
                i <= self.default_args.len(),
                state@.len() == i,
                forall|k: int|
                    0 <= k < i ==> text_of(#[trigger] state@[k]) == slot_of(
                        self.default_args@[k]@,
                    ),
            decreases self.default_args.len() - i,
        {
            let slot = match &self.default_args[i] {
                TypeArg::Unset => None,
                TypeArg::Param(name) => Some(name.clone()),
                TypeArg::Filled(text) => Some(text.clone()),
            };
            state.push(slot);
            i += 1;
        }
        let mut slots: Vec<Option<V>> = Vec::new();
        let mut f: usize = 0;
        while f < self.fields.len()
            invariant
                f <= self.fields.len(),
                slots@.len() == f,
                forall|k: int| 0 <= k < f ==> #[trigger] slots@[k] is None,
            decreases self.fields.len() - f,
        {
            slots.push(None);
            f += 1;
        }
        let inst = BuilderInstance { state, slots };
        assert(inst@.state =~= Seq::new(
            self@.default_args.len(),
            |i: int| slot_of(self@.default_args[i]),
        ));
        assert(inst@.slots =~= Seq::new(self@.fields.len(), |f: int| None::<V>));
        Some(inst)
    }

    /// Calls the setter `method` with `value` on a builder, which the call
    /// consumes. `None` where no setter of that name is defined for the
    /// builder's type.
    pub fn call<V>(&self, inst: BuilderInstance<V>, method: &str, value: V) -> (out: Option<
        BuilderInstance<V>,
    >)
        requires
            well_formed(self@),
            fits(inst@, self@),
        ensures
            match out {
                Some(next) => stepped(self@, inst@, method@, value) == Some(next@) && fits(
                    next@,
                    self@,
                ),
                None => stepped(self@, inst@, method@, value) is None,
            },
    {
        match select(&self.setters, &inst.state, method) {
            Some(i) => {
                let setter = &self.setters[i];
                assert(self@.setters[i as int] == setter@);
                let state = instantiate(&setter.ret_args, &inst.state);
                let mut slots = inst.slots;
                slots.set(setter.target, Some(value));
                Some(BuilderInstance { state, slots })
            },
            None => None,
        }
    }

    /// Calls `build` on a builder, which the call consumes. `None` where
    /// `build` is not defined for the builder's type.
    pub fn build<V>(&self, inst: BuilderInstance<V>) -> (out: Option<Record<V>>)
        ensures
            match out {
                Some(record) => built(self@, inst@) == Some(record.values@),
                None => built(self@, inst@) is None,
            },
    {
        if state_accepted(&self.filled_args, &inst.state) {
            Some(Record { values: inst.slots })
        } else {
            None
        }
    }
}

} // verus!
