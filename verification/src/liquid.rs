//! The variables of the template engine, and the provided values that go into them.

use crate::table::{TableView, ValueTable};
use crate::values::TomlValue;
use vstd::prelude::*;

verus! {

/// The map of variables of the template engine.
#[verifier::external_type_specification]
#[verifier::external_body]
pub struct ExObject(liquid_core::Object);

/// A value that is set for a variable.
#[derive(Debug)]
pub enum SlotValue {
    Text(String),
    Bool(bool),
}

/// What a variable holds.
pub enum SlotView {
    Text(Seq<char>),
    Bool(bool),
    Integer(int),
    /// A floating-point number, by its bits.
    Float(u64),
    /// A point in time, by its distance from the beginning of 1970, and the offset of its clock.
    DateTime { nanoseconds: int, offset_seconds: int },
    Date { year: int, month: nat, day: nat },
    Array(Seq<SlotView>),
    Object(Map<Seq<char>, SlotView>),
    State(StateView),
    Nil,
}

/// A symbol by which templates ask after the state of a value.
pub enum StateView {
    Truthy,
    DefaultValue,
    Empty,
    Blank,
}

impl View for SlotValue {
    type V = SlotView;

    open spec fn view(&self) -> SlotView {
        match self {
            SlotValue::Text(text) => SlotView::Text(text@),
            SlotValue::Bool(b) => SlotView::Bool(*b),
        }
    }
}

/// The variables that a `liquid_core::Object` holds, by name: the text of each key, and the
/// `liquid_core::Value` under it.
pub uninterp spec fn variables(object: liquid_core::Object) -> Map<Seq<char>, SlotView>;

/// Calls `contains_key` of `liquid_core::Object`: whether there is a variable of that name.
#[verifier::external_body]
fn object_contains_key(object: &liquid_core::Object, name: &str) -> (r: bool)
    ensures
        r == variables(*object).contains_key(name@),
{
    object.contains_key(name)
}

/// Calls `insert` of `liquid_core::Object`, with a text or a truth value as a scalar: the
/// variable of that name holds the value afterwards, and the others are as they were.
#[verifier::external_body]
fn object_insert(object: &mut liquid_core::Object, name: String, value: SlotValue)
    ensures
        variables(*final(object)) == variables(*old(object)).insert(name@, value@),
{
    let value = match value {
        SlotValue::Text(text) => liquid_core::Value::Scalar(text.into()),
        SlotValue::Bool(b) => liquid_core::Value::Scalar(b.into()),
    };
    object.insert(name.into(), value);
}

/// A provided value is neither a text nor a truth value.
#[derive(Debug)]
pub struct UnsupportedValue {
    pub name: String,
}

/// What a provided value is as a variable: only texts and truth values can be one.
pub open spec fn as_variable(value: TomlValue) -> Option<SlotView> {
    match value {
        TomlValue::String(text) => Some(SlotView::Text(text@)),
        TomlValue::Boolean(b) => Some(SlotView::Bool(b)),
        _ => None,
    }
}

/// The provided value at place `i` stands in the way: it has no variable yet, and cannot be
/// one.
pub open spec fn is_unsupported(
    vars: Map<Seq<char>, SlotView>,
    provided: TableView,
    i: int,
) -> bool {
    &&& !vars.contains_key(provided.order[i])
    &&& as_variable(provided.values[provided.order[i]]) is None
}

/// The variables after the first `n` provided values: those without a variable have got one.
pub open spec fn with_provided(
    vars: Map<Seq<char>, SlotView>,
    provided: TableView,
    n: int,
) -> Map<Seq<char>, SlotView> {
    Map::new(
        |name: Seq<char>|
            vars.contains_key(name) || provided.order.take(n).contains(name),
        |name: Seq<char>|
            if vars.contains_key(name) {
                vars[name]
            } else {
                as_variable(provided.values[name])->0
            },
    )
}

/// The first provided value that stands in the way.
pub open spec fn is_first_unsupported(
    vars: Map<Seq<char>, SlotView>,
    provided: TableView,
    i: int,
) -> bool {
    &&& 0 <= i < provided.order.len()
    &&& is_unsupported(vars, provided, i)
    &&& forall|j: int| 0 <= j < i ==> !#[trigger] is_unsupported(vars, provided, j)
}

/// Makes a variable of each provided value that has none yet. Variables that are there keep
/// their values. It stops at the first value that can be no variable.
pub fn add_missing_provided_values(object: &mut liquid_core::Object, provided: &ValueTable) -> (r:
    Result<(), UnsupportedValue>)
    ensures
        match r {
            Ok(_) => {
                &&& forall|i: int|
                    0 <= i < provided@.order.len() ==> !#[trigger] is_unsupported(
                        variables(*old(object)),
                        provided@,
                        i,
                    )
                &&& variables(*final(object)) == with_provided(
                    variables(*old(object)),
                    provided@,
                    provided@.order.len() as int,
                )
            },
            Err(e) => exists|i: int| {
                &&& #[trigger] is_first_unsupported(variables(*old(object)), provided@, i)
                &&& e.name@ == provided@.order[i]
                &&& variables(*final(object)) == with_provided(
                    variables(*old(object)),
                    provided@,
                    i,
                )
            },
        },
{
    let count: usize = provided.len();
    let ghost start = variables(*object);
    let mut i: usize = 0;
    assert(variables(*object) =~= with_provided(start, provided@, 0));
    while i < count
        invariant
            i <= count,
            count == provided@.order.len(),
            provided@.is_consistent(),
            start == variables(*old(object)),
            variables(*object) == with_provided(start, provided@, i as int),
            forall|j: int| 0 <= j < i ==> !#[trigger] is_unsupported(start, provided@, j),
        decreases count - i,
    {
        let (name, value): (&String, &TomlValue) = provided.entry(i);
        let ghost before = provided@.order.take(i as int);
        let ghost upto = provided@.order.take(i + 1);
        proof {
            assert(upto =~= before.push(name@));
            assert(!before.contains(name@)) by {
                if before.contains(name@) {
                    let j = before.index_of(name@);
                    assert(provided@.order[j] == provided@.order[i as int]);
                }
            }
            assert forall|n: Seq<char>| upto.contains(n) <==> (before.contains(n) || n
                == name@) by {
                if before.contains(n) {
                    assert(upto[before.index_of(n)] == n);
                }
                if upto.contains(n) && n != name@ {
                    assert(before[upto.index_of(n)] == n);
                }
                assert(upto[i as int] == name@);
            }
        }
        if !object_contains_key(object, name.as_str()) {
            let slot: SlotValue = match value {
                TomlValue::String(text) => SlotValue::Text(text.clone()),
                TomlValue::Boolean(b) => SlotValue::Bool(*b),
                _ => {
                    assert(is_first_unsupported(start, provided@, i as int));
                    return Err(UnsupportedValue { name: name.clone() });
                },
            };
            object_insert(object, name.clone(), slot);
            assert(variables(*object) =~= with_provided(start, provided@, i + 1));
        } else {
            assert(variables(*object) =~= with_provided(start, provided@, i + 1));
        }
        i = i + 1;
    }
    Ok(())
}

/// The order in which values are provided does not matter: whether one of them stands in the
/// way does not depend on it, nor do the variables once all values are in.
pub proof fn law_order_of_provided_values_does_not_matter(
    vars: Map<Seq<char>, SlotView>,
    one: TableView,
    other: TableView,
)
    requires
        one.is_consistent(),
        other.is_consistent(),
        one.values == other.values,
    ensures
        (exists|i: int| 0 <= i < one.order.len() && #[trigger] is_unsupported(vars, one, i))
            <==> (exists|i: int|
            0 <= i < other.order.len() && #[trigger] is_unsupported(vars, other, i)),
        with_provided(vars, one, one.order.len() as int) == with_provided(
            vars,
            other,
            other.order.len() as int,
        ),
{
    assert(one.order.take(one.order.len() as int) =~= one.order);
    assert(other.order.take(other.order.len() as int) =~= other.order);
    assert forall|name: Seq<char>| one.order.contains(name) == other.order.contains(name) by {
        assert(one.order.contains(name) <==> one.values.contains_key(name));
        assert(other.order.contains(name) <==> other.values.contains_key(name));
    }
    assert(with_provided(vars, one, one.order.len() as int) =~= with_provided(
        vars,
        other,
        other.order.len() as int,
    ));
    if exists|i: int| 0 <= i < one.order.len() && #[trigger] is_unsupported(vars, one, i) {
        lemma_unsupported_elsewhere(vars, one, other);
    }
    if exists|i: int| 0 <= i < other.order.len() && #[trigger] is_unsupported(vars, other, i) {
        lemma_unsupported_elsewhere(vars, other, one);
    }
}

proof fn lemma_unsupported_elsewhere(
    vars: Map<Seq<char>, SlotView>,
    one: TableView,
    other: TableView,
)
    requires
        one.is_consistent(),
        other.is_consistent(),
        one.values == other.values,
        exists|i: int| 0 <= i < one.order.len() && #[trigger] is_unsupported(vars, one, i),
    ensures
        exists|i: int| 0 <= i < other.order.len() && #[trigger] is_unsupported(vars, other, i),
{
    let i = choose|i: int| 0 <= i < one.order.len() && #[trigger] is_unsupported(vars, one, i);
    assert(one.order.contains(one.order[i]));
    assert(one.values.contains_key(one.order[i]));
    assert(other.values.contains_key(one.order[i]));
    let j = other.order.index_of(one.order[i]);
    assert(is_unsupported(vars, other, j));
}

/// However many provided values have been added, the variables that were there have the values
/// that they had.
pub proof fn law_variables_keep_their_values(
    vars: Map<Seq<char>, SlotView>,
    provided: TableView,
    n: int,
)
    requires
        0 <= n <= provided.order.len(),
    ensures
        vars.submap_of(with_provided(vars, provided, n)),
{
}

/// Once all provided values are in, adding them again changes nothing, and none stands in the
/// way.
pub proof fn law_values_are_added_once(vars: Map<Seq<char>, SlotView>, provided: TableView)
    ensures
        ({
            let count = provided.order.len() as int;
            let after = with_provided(vars, provided, count);
            &&& with_provided(after, provided, count) == after
            &&& forall|i: int|
                0 <= i < count ==> !#[trigger] is_unsupported(after, provided, i)
        }),
{
    let count = provided.order.len() as int;
    let after = with_provided(vars, provided, count);
    assert(provided.order.take(count) =~= provided.order);
    assert(with_provided(after, provided, count) =~= after);
}

/// Each provided value without a variable becomes one: a text that text, and a truth value that
/// truth value. A variable that is there keeps its value, whatever is provided under its name.
pub proof fn law_each_provided_value_becomes_a_variable(
    vars: Map<Seq<char>, SlotView>,
    provided: TableView,
    n: int,
    i: int,
)
    requires
        0 <= i < n <= provided.order.len(),
    ensures
        ({
            let name = provided.order[i];
            let value = provided.values[name];
            let after = with_provided(vars, provided, n);
            &&& after.contains_key(name)
            &&& vars.contains_key(name) ==> after[name] == vars[name]
            &&& !vars.contains_key(name) ==> {
                &&& value matches TomlValue::String(text) ==> after[name] == SlotView::Text(text@)
                &&& value matches TomlValue::Boolean(b) ==> after[name] == SlotView::Bool(b)
            }
        }),
{
    assert(provided.order.take(n)[i] == provided.order[i]);
}

/// No other names get a variable, and none loses its variable.
pub proof fn law_no_other_names_get_a_variable(
    vars: Map<Seq<char>, SlotView>,
    provided: TableView,
    n: int,
    name: Seq<char>,
)
    requires
        0 <= n <= provided.order.len(),
        forall|i: int| 0 <= i < n ==> provided.order[i] != name,
    ensures
        with_provided(vars, provided, n).contains_key(name) <==> vars.contains_key(name),
        vars.contains_key(name) ==> with_provided(vars, provided, n)[name] == vars[name],
{
    let front = provided.order.take(n);
    if front.contains(name) {
        let i = front.index_of(name);
        assert(provided.order[i] == name);
    }
}

/// A provided value stands in the way where its name has no variable, and it is neither a text
/// nor a truth value. The first that does is the one before which none does.
pub proof fn law_which_values_stand_in_the_way(
    vars: Map<Seq<char>, SlotView>,
    provided: TableView,
    i: int,
    j: int,
)
    ensures
        ({
            let name = provided.order[i];
            let value = provided.values[name];
            is_unsupported(vars, provided, i) <==> !vars.contains_key(name) && (value is Integer
                || value is Float || value is Datetime || value is Array || value is Table)
        }),
        is_first_unsupported(vars, provided, i) ==> 0 <= i < provided.order.len()
            && is_unsupported(vars, provided, i),
        is_first_unsupported(vars, provided, i) && 0 <= j < i ==> !is_unsupported(
            vars,
            provided,
            j,
        ),
{
}

/// The model of a value that is set is that value.
pub proof fn law_nothing_of_a_set_value_is_lost(text: String, b: bool)
    ensures
        SlotValue::Text(text)@ == SlotView::Text(text@),
        SlotValue::Bool(b)@ == SlotView::Bool(b),
{
}

} // verus!
