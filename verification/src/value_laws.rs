//! What values, tables and slots give, by what goes into them.

use crate::slots::{
    choice_view, default_text, initial_view, InfoView, InitialValue, InitialView, SlotsView,
    StringEntry, StringKind, TemplateSlots, VarInfo,
};
use crate::table::TableView;
use crate::text::{bool_text, int_text, joined, lemma_filter_keeps, lemma_filter_last, LIST_SEP};
use crate::values::{
    is_valid_value, law_depth_does_not_matter, leaf_texts, leaf_texts_of,
    lemma_leaf_texts_concat, toml_datetime_text, value_text, TomlOffset, TomlValue,
};
use vstd::prelude::*;

verus! {

/// A text is its own text, a float the one that it prints as. Integers and truth values are
/// written out, and so are dates and times. A table has no text, and everything else has one.
pub proof fn law_text_of_a_value(value: TomlValue)
    ensures
        value is Table <==> value_text(value) is None,
        value matches TomlValue::String(s) ==> value_text(value) == Some(s@),
        value matches TomlValue::Float(s) ==> value_text(value) == Some(s@),
        value matches TomlValue::Integer(i) ==> value_text(value) == Some(int_text(i as int)),
        value matches TomlValue::Boolean(b) ==> value_text(value) == Some(bool_text(b)),
        value matches TomlValue::Datetime(d) ==> value_text(value) == Some(toml_datetime_text(d)),
{
}

proof fn lemma_scalar_leaves(items: Seq<TomlValue>)
    requires
        forall|i: int|
            0 <= i < items.len() ==> !((#[trigger] items[i]) is Array) && !(items[i] is Table),
    ensures
        leaf_texts_of(items) == Seq::new(items.len(), |i: int| value_text(items[i])->0),
    decreases items.len(),
{
    let texts = Seq::new(items.len(), |i: int| value_text(items[i])->0);
    if items.len() == 0 {
        assert(leaf_texts_of(items) =~= texts);
    } else {
        let front = items.drop_last();
        assert forall|i: int| 0 <= i < front.len() implies !((#[trigger] front[i]) is Array) && !(
        front[i] is Table) by {
            assert(front[i] == items[i]);
        }
        lemma_scalar_leaves(front);
        let last = items[items.len() - 1];
        assert(!(last is Array) && !(last is Table));
        assert(leaf_texts(last) =~= seq![value_text(last)->0]);
        assert(leaf_texts_of(items) =~= texts);
    }
}

/// An array without arrays and tables in it is the texts of its items, with commas between them:
/// all of them, in order.
pub proof fn law_text_of_a_flat_array(items: Vec<TomlValue>)
    requires
        forall|i: int|
            0 <= i < items@.len() ==> !((#[trigger] items@[i]) is Array) && !(items@[i] is Table),
    ensures
        value_text(TomlValue::Array(items)) == Some(
            joined(Seq::new(items@.len(), |i: int| value_text(items@[i])->0), seq![',']),
        ),
{
    reveal_strlit(",");
    assert(LIST_SEP@ =~= seq![',']);
    lemma_scalar_leaves(items@);
}

/// An array has the text that it has with the items of an array in it in that array's place.
pub proof fn law_text_of_a_nested_array(
    nested: Vec<TomlValue>,
    flat: Vec<TomlValue>,
    front: Seq<TomlValue>,
    inner: Vec<TomlValue>,
    back: Seq<TomlValue>,
)
    requires
        nested@ == front + seq![TomlValue::Array(inner)] + back,
        flat@ == front + inner@ + back,
    ensures
        value_text(TomlValue::Array(nested)) == value_text(TomlValue::Array(flat)),
{
    law_depth_does_not_matter(front, inner, back);
}

/// An array has the text that it has without a table in it.
pub proof fn law_tables_in_arrays_are_ignored(
    with_table: Vec<TomlValue>,
    without: Vec<TomlValue>,
    front: Seq<TomlValue>,
    entries: Vec<(String, TomlValue)>,
    back: Seq<TomlValue>,
)
    requires
        with_table@ == front + seq![TomlValue::Table(entries)] + back,
        without@ == front + back,
    ensures
        value_text(TomlValue::Array(with_table)) == value_text(TomlValue::Array(without)),
{
    let table = seq![TomlValue::Table(entries)];
    lemma_leaf_texts_concat(front + table, back);
    lemma_leaf_texts_concat(front, table);
    lemma_leaf_texts_concat(front, back);
    assert(leaf_texts_of(table.drop_last()) =~= Seq::empty());
    assert(leaf_texts(table[0]) =~= Seq::empty());
    assert(leaf_texts_of(front + table) =~= leaf_texts_of(front));
}

/// Only an offset that cannot be negated makes a value invalid, by itself or within arrays.
pub proof fn law_which_values_are_valid(value: TomlValue)
    ensures
        value is String || value is Integer || value is Float || value is Boolean || value is Table
            ==> is_valid_value(value),
        value matches TomlValue::Datetime(d) ==> (!is_valid_value(value) <==> d.offset == Some(
            TomlOffset::Custom { minutes: i16::MIN },
        )),
        value matches TomlValue::Array(items) ==> (is_valid_value(value) <==> forall|i: int|
            0 <= i < items@.len() ==> is_valid_value(#[trigger] items@[i])),
{
}

/// A name that is set has its new value; every other name has what it had. A new name is last
/// in the order, and the names before it stay where they were.
pub proof fn law_setting_a_name(
    table: TableView,
    name: Seq<char>,
    value: TomlValue,
    other: Seq<char>,
)
    ensures
        table.with(name, value).values.contains_key(name),
        table.with(name, value).values[name] == value,
        other != name ==> {
            &&& table.with(name, value).values.contains_key(other) == table.values.contains_key(
                other,
            )
            &&& table.values.contains_key(other) ==> table.with(name, value).values[other]
                == table.values[other]
        },
        table.values.contains_key(name) ==> table.with(name, value).order == table.order,
        !table.values.contains_key(name) ==> {
            &&& table.with(name, value).order.len() == table.order.len() + 1
            &&& table.with(name, value).order.last() == name
            &&& table.with(name, value).order.drop_last() == table.order
        },
{
    assert(table.order.push(name).drop_last() =~= table.order);
}

/// The empty table has no names.
pub proof fn law_empty_table_has_no_names(name: Seq<char>)
    ensures
        !TableView::empty().values.contains_key(name),
        TableView::empty().order.len() == 0,
{
}

/// With everything that another table holds, a name has the value that it has there, or else the
/// one that it had. The names that were there stay first and in order; only new names follow.
pub proof fn law_setting_everything_of_a_table(table: TableView, more: TableView, name: Seq<char>)
    requires
        table.is_consistent(),
        more.is_consistent(),
    ensures
        ({
            let all = table.with_all(more);
            &&& all.values.contains_key(name) <==> table.values.contains_key(name)
                || more.values.contains_key(name)
            &&& more.values.contains_key(name) ==> all.values[name] == more.values[name]
            &&& table.values.contains_key(name) && !more.values.contains_key(name)
                ==> all.values[name] == table.values[name]
            &&& table.order.len() <= all.order.len()
            &&& all.order.take(table.order.len() as int) == table.order
            &&& all.order.contains(name) <==> all.values.contains_key(name)
        }),
{
    let all = table.with_all(more);
    let new = more.order.filter(table.lacks());
    assert(all.order.take(table.order.len() as int) =~= table.order);
    assert(table.order.contains(name) <==> table.values.contains_key(name));
    assert(more.order.contains(name) <==> more.values.contains_key(name));
    if all.order.contains(name) {
        let i = all.order.index_of(name);
        if i < table.order.len() {
            assert(table.order[i] == name);
        } else {
            lemma_filter_keeps(more.order, table.lacks(), i - table.order.len());
            assert(new[i - table.order.len()] == name);
        }
    }
    if table.order.contains(name) {
        assert(all.order[table.order.index_of(name)] == name);
    } else if more.order.contains(name) {
        lemma_kept(more.order, table.lacks(), name);
        assert(all.order[table.order.len() + new.index_of(name)] == name);
    }
}

proof fn lemma_kept(items: Seq<Seq<char>>, keep: spec_fn(Seq<char>) -> bool, item: Seq<char>)
    requires
        items.contains(item),
        keep(item),
    ensures
        items.filter(keep).contains(item),
    decreases items.len(),
{
    lemma_filter_last(items, keep);
    let front = items.drop_last();
    let kept = front.filter(keep);
    if items.last() == item {
        assert(kept.push(item)[kept.len() as int] == item);
    } else {
        let i = items.index_of(item);
        assert(front[i] == item);
        lemma_kept(front, keep, item);
        let j = kept.index_of(item);
        assert(items.filter(keep)[j] == item);
    }
}

/// New names follow one by one, in the order in which the other table has them.
pub proof fn law_new_names_follow_in_order(table: TableView, order: Seq<Seq<char>>, name: Seq<char>)
    ensures
        ({
            let more = TableView { values: Map::empty(), order };
            let longer = TableView { values: Map::empty(), order: order.push(name) };
            &&& table.values.contains_key(name) ==> table.with_all(longer).order
                == table.with_all(more).order
            &&& !table.values.contains_key(name) ==> table.with_all(longer).order
                == table.with_all(more).order.push(name)
        }),
{
    let more = TableView { values: Map::empty(), order };
    let longer = TableView { values: Map::empty(), order: order.push(name) };
    lemma_filter_last(order.push(name), table.lacks());
    assert(order.push(name).drop_last() =~= order);
    assert(table.with_all(longer).order =~= (if table.values.contains_key(name) {
        table.with_all(more).order
    } else {
        table.with_all(more).order.push(name)
    }));
}

/// A slot for which a text is provided is filled with that very text, in silent mode and out of
/// it, whatever kind of slot it is and whatever its default. So it is with any other value but a
/// table, whose text it is then.
pub proof fn law_a_provided_value_fills_its_slot(
    slot: SlotsView,
    provided: TableView,
    silent: bool,
)
    requires
        provided.values.contains_key(slot.var_name),
    ensures
        provided.values[slot.var_name] matches TomlValue::String(s) ==> initial_view(
            slot,
            provided,
            silent,
        ) == Some(InitialView::Provided(s@)),
        !(provided.values[slot.var_name] is Table) ==> {
            &&& value_text(provided.values[slot.var_name]) is Some
            &&& initial_view(slot, provided, silent) == Some(
                InitialView::Provided(value_text(provided.values[slot.var_name])->0),
            )
        },
{
}

/// A slot for which nothing is provided, or a table, is filled by the user; in silent mode by the
/// default of the template, where there is one, and by nothing where there is none.
pub proof fn law_a_slot_without_a_value(slot: SlotsView, provided: TableView, silent: bool)
    requires
        !provided.values.contains_key(slot.var_name) || provided.values[slot.var_name] is Table,
    ensures
        !silent ==> initial_view(slot, provided, silent) == Some(InitialView::Ask),
        silent ==> (slot.var_info matches InfoView::Text { default: Some(text), .. }
            ==> initial_view(slot, provided, silent) == Some(InitialView::Default(text))),
        silent ==> (slot.var_info matches InfoView::Bool { default: Some(b) } ==> initial_view(
            slot,
            provided,
            silent,
        ) == Some(InitialView::Default(bool_text(b)))),
        silent ==> (slot.var_info matches InfoView::Text { default: None, .. } ==> initial_view(
            slot,
            provided,
            silent,
        ) is None),
        silent ==> (slot.var_info matches InfoView::Bool { default: None } ==> initial_view(
            slot,
            provided,
            silent,
        ) is None),
        silent && slot.var_info is Texts ==> initial_view(slot, provided, silent) is None,
{
}

/// What is provided for other names does not matter for a slot.
pub proof fn law_other_names_do_not_matter(
    slot: SlotsView,
    provided: TableView,
    silent: bool,
    name: Seq<char>,
    value: TomlValue,
)
    requires
        name != slot.var_name,
    ensures
        initial_view(slot, provided.with(name, value), silent) == initial_view(
            slot,
            provided,
            silent,
        ),
{
}

/// The default of a slot is the one that the template gives: of a text, that text, whatever
/// texts may be entered; of a truth value, the word for it. A slot for several texts has none.
pub proof fn law_default_of_a_slot(slot: SlotsView)
    ensures
        slot.var_info matches InfoView::Text { default, .. } ==> default_text(slot) == default,
        slot.var_info matches InfoView::Bool { default } ==> {
            &&& default_text(slot) is Some <==> default is Some
            &&& default is Some ==> default_text(slot) == Some(bool_text(default->0))
        },
        slot.var_info is Texts ==> default_text(slot) is None,
{
}

/// A question offers all the choices, in order, and preselects the first of them.
pub proof fn law_a_question_offers_all_choices(
    prompt: Seq<char>,
    var_name: Seq<char>,
    choices: Seq<Seq<char>>,
)
    ensures
        ({
            let slot = choice_view(prompt, var_name, choices);
            &&& slot.prompt == prompt
            &&& slot.var_name == var_name
            &&& slot.var_info is Text
            &&& slot.var_info->Text_choices == Some(choices)
            &&& slot.var_info->Text_default == Some(choices[0])
            &&& slot.var_info->regex is None
        }),
{
}

/// The model of a slot has its name, its question and what kind of value it takes.
pub proof fn law_nothing_of_a_slot_is_lost(
    slot: TemplateSlots,
    entry: Box<StringEntry>,
    default: Option<bool>,
)
    ensures
        slot@.prompt == slot.prompt@,
        slot@.var_name == slot.var_name@,
        slot@.var_info == slot.var_info@,
        (VarInfo::Bool { default })@ == (InfoView::Bool { default }),
        (VarInfo::String { entry })@ is Text,
        entry.default matches Some(text) ==> (VarInfo::String { entry })@->Text_default == Some(
            text@,
        ),
        entry.default is None ==> (VarInfo::String { entry })@->Text_default is None,
        entry.kind matches StringKind::Choices(choices) ==> (VarInfo::String { entry })@->Text_choices
            == Some(choices.deep_view()),
        entry.kind is String ==> (VarInfo::String { entry })@->Text_choices is None,
        slot.var_info is Array ==> slot@.var_info is Texts,
{
}

/// The model of what fills a slot has its text.
pub proof fn law_nothing_of_an_initial_value_is_lost(text: String)
    ensures
        InitialValue::Provided(text)@ == InitialView::Provided(text@),
        InitialValue::Default(text)@ == InitialView::Default(text@),
        InitialValue::Ask@ == InitialView::Ask,
{
}

} // verus!
