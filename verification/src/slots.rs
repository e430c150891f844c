//! The slots of a template: what the user is asked for, and what stands in for an answer.

use crate::table::{TableView, ValueTable};
use crate::text::{bool_string, bool_text};
use crate::values::{extract_toml_string, is_valid_value, value_text, TomlValue};
use vstd::prelude::*;

verus! {

/// How a text is entered.
#[derive(Debug)]
pub enum StringKind {
    /// One of the listed texts.
    Choices(Vec<String>),
    /// Any text.
    String,
}

/// What is known of a slot that takes a text.
#[derive(Debug)]
pub struct StringEntry {
    pub default: Option<String>,
    pub kind: StringKind,
    pub regex: Option<String>,
}

/// What is known of a slot that takes several texts.
#[derive(Debug)]
pub struct ArrayEntry {
    pub choices: Vec<String>,
    pub default: Option<Vec<String>>,
}

/// What kind of value a slot takes.
#[allow(inconsistent_fields)]
#[derive(Debug)]
pub enum VarInfo {
    Bool { default: Option<bool> },
    String { entry: Box<StringEntry> },
    Array { entry: Box<ArrayEntry> },
}

/// A slot: its name, the question for its value and the kind of value.
#[derive(Debug)]
pub struct TemplateSlots {
    pub prompt: String,
    pub var_name: String,
    pub var_info: VarInfo,
}

/// A value for a placeholder could not be had.
#[derive(Debug)]
pub enum ConversionError {
    /// Nobody may be asked, and the template gives no default value.
    MissingDefaultValueForPlaceholderVariable { var_name: String },
}

/// What a [`VarInfo`] holds.
#[allow(inconsistent_fields)]
pub enum InfoView {
    Bool { default: Option<bool> },
    /// A text; `choices` is `None` where any text will do.
    Text {
        default: Option<Seq<char>>,
        choices: Option<Seq<Seq<char>>>,
        regex: Option<Seq<char>>,
    },
    Texts { default: Option<Seq<Seq<char>>>, choices: Seq<Seq<char>> },
}

/// What a [`TemplateSlots`] holds.
pub struct SlotsView {
    pub prompt: Seq<char>,
    pub var_name: Seq<char>,
    pub var_info: InfoView,
}

impl View for VarInfo {
    type V = InfoView;

    open spec fn view(&self) -> InfoView {
        match self {
            VarInfo::Bool { default } => InfoView::Bool { default: *default },
            VarInfo::String { entry } => InfoView::Text {
                default: entry.default.deep_view(),
                choices: match entry.kind {
                    StringKind::Choices(choices) => Some(choices.deep_view()),
                    StringKind::String => None,
                },
                regex: entry.regex.deep_view(),
            },
            VarInfo::Array { entry } => InfoView::Texts {
                default: entry.default.deep_view(),
                choices: entry.choices.deep_view(),
            },
        }
    }
}

impl View for TemplateSlots {
    type V = SlotsView;

    open spec fn view(&self) -> SlotsView {
        SlotsView {
            prompt: self.prompt@,
            var_name: self.var_name@,
            var_info: self.var_info@,
        }
    }
}

/// A question with answers to choose from, the first of them preselected.
pub open spec fn choice_view(
    prompt: Seq<char>,
    var_name: Seq<char>,
    choices: Seq<Seq<char>>,
) -> SlotsView {
    SlotsView {
        prompt,
        var_name,
        var_info: InfoView::Text {
            default: Some(choices[0]),
            choices: Some(choices),
            regex: None,
        },
    }
}

/// Makes a question with answers to choose from, the first of them preselected.
pub fn choice_slot(prompt: &str, var_name: &str, choices: Vec<String>) -> (r: TemplateSlots)
    requires
        choices@.len() > 0,
    ensures
        r@ == choice_view(prompt@, var_name@, choices.deep_view()),
{
    TemplateSlots {
        prompt: prompt.to_owned(),
        var_name: var_name.to_owned(),
        var_info: VarInfo::String {
            entry: Box::new(
                StringEntry {
                    default: Some(choices[0].clone()),
                    kind: StringKind::Choices(choices),
                    regex: None,
                },
            ),
        },
    }
}

/// The default value that the template gives for a slot: of a truth value or a text. Slots
/// that take several texts have none.
pub open spec fn default_text(slot: SlotsView) -> Option<Seq<char>> {
    match slot.var_info {
        InfoView::Bool { default } => match default {
            Some(b) => Some(bool_text(b)),
            None => None,
        },
        InfoView::Text { default, .. } => default,
        InfoView::Texts { .. } => None,
    }
}

/// Reads the default value that the template gives for a slot.
pub fn read_default_variable_value_from_template(slot: &TemplateSlots) -> (r: Result<String, ()>)
    ensures
        match r {
            Ok(text) => default_text(slot@) == Some(text@),
            Err(_) => default_text(slot@) is None,
        },
{
    match &slot.var_info {
        VarInfo::Bool { default } => match default {
            Some(b) => Ok(bool_string(*b)),
            None => Err(()),
        },
        VarInfo::String { entry } => match &entry.default {
            Some(text) => Ok(text.clone()),
            None => Err(()),
        },
        VarInfo::Array { .. } => Err(()),
    }
}

/// The text that was provided for a name.
pub open spec fn provided_text(provided: TableView, name: Seq<char>) -> Option<Seq<char>> {
    if provided.values.contains_key(name) {
        value_text(provided.values[name])
    } else {
        None
    }
}

/// What a slot is filled with before the user is asked.
#[derive(Debug)]
pub enum InitialValue {
    /// The text that was provided.
    Provided(String),
    /// The default of the template, since nobody may be asked.
    Default(String),
    /// Nothing: the user is asked.
    Ask,
}

/// What an [`InitialValue`] holds.
pub enum InitialView {
    Provided(Seq<char>),
    Default(Seq<char>),
    Ask,
}

impl View for InitialValue {
    type V = InitialView;

    open spec fn view(&self) -> InitialView {
        match self {
            InitialValue::Provided(text) => InitialView::Provided(text@),
            InitialValue::Default(text) => InitialView::Default(text@),
            InitialValue::Ask => InitialView::Ask,
        }
    }
}

/// What a slot is filled with before the user is asked: a provided text comes first; in silent
/// mode the default of the template is next. `None` is a slot that cannot be filled.
pub open spec fn initial_view(
    slot: SlotsView,
    provided: TableView,
    silent: bool,
) -> Option<InitialView> {
    match provided_text(provided, slot.var_name) {
        Some(text) => Some(InitialView::Provided(text)),
        None => if silent {
            match default_text(slot) {
                Some(text) => Some(InitialView::Default(text)),
                None => None,
            }
        } else {
            Some(InitialView::Ask)
        },
    }
}

/// Decides what a slot is filled with before the user is asked. It is an error if in silent
/// mode there is neither a provided text nor a default.
pub fn initial_value(slot: &TemplateSlots, provided: &ValueTable, silent: bool) -> (r: Result<
    InitialValue,
    ConversionError,
>)
    requires
        provided@.values.contains_key(slot.var_name@) ==> is_valid_value(
            provided@.values[slot.var_name@],
        ),
    ensures
        match r {
            Ok(value) => initial_view(slot@, provided@, silent) == Some(value@),
            Err(ConversionError::MissingDefaultValueForPlaceholderVariable { var_name }) => {
                &&& initial_view(slot@, provided@, silent) is None
                &&& var_name@ == slot.var_name@
            },
        },
        provided@.values.contains_key(slot.var_name@) ==> (
        provided@.values[slot.var_name@] matches TomlValue::String(s) ==> (
        r matches Ok(InitialValue::Provided(text)) && text@ == s@)),
{
    let text: Option<String> = match provided.get(slot.var_name.as_str()) {
        Some(value) => extract_toml_string(value),
        None => None,
    };
    match text {
        Some(text) => Ok(InitialValue::Provided(text)),
        None => if silent {
            match read_default_variable_value_from_template(slot) {
                Ok(default) => Ok(InitialValue::Default(default)),
                Err(_) => Err(
                    ConversionError::MissingDefaultValueForPlaceholderVariable {
                        var_name: slot.var_name.clone(),
                    },
                ),
            }
        } else {
            Ok(InitialValue::Ask)
        },
    }
}

/// In silent mode nobody is asked.
pub proof fn law_silent_mode_asks_nobody(slot: SlotsView, provided: TableView)
    ensures
        initial_view(slot, provided, true) != Some(InitialView::Ask),
{
}

/// A provided text is used as it is, in silent mode and out of it, whatever the default.
pub proof fn law_provided_text_comes_first(slot: SlotsView, provided: TableView, silent: bool)
    requires
        provided_text(provided, slot.var_name) is Some,
    ensures
        initial_view(slot, provided, silent) == Some(
            InitialView::Provided(provided_text(provided, slot.var_name)->0),
        ),
{
}

} // verus!
