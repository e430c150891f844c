//! The rules by which a project template is located, configured, filled in and expanded.
//!
//! What touches files, repositories, scripts or the user is left to the caller: functions here
//! are handed what was found, and say what is to be done next.

pub mod condition_laws;
pub mod config;
pub mod expand;
pub mod expand_laws;
pub mod generate;
pub mod generate_laws;
pub mod liquid;
pub mod locate;
pub mod locate_laws;
pub mod merge;
pub mod merge_laws;
pub mod path;
pub mod path_laws;
pub mod round_laws;
pub mod slots;
pub mod source;
pub mod table;
pub mod text;
pub mod text_laws;
pub mod value_laws;
pub mod values;
pub mod version;

pub use crate::merge::fill_placeholders_and_merge_conditionals;
pub use crate::expand::expand_template;
pub use crate::generate::{generate, log_formatter};
pub use crate::liquid::add_missing_provided_values;
pub use crate::locate::{
    auto_locate_template_dir, locate_template_file, resolve_configured_sub_templates,
    resolve_template_dir_subfolder,
};
pub use crate::slots::read_default_variable_value_from_template;
pub use crate::source::{get_source_template_into_temp, strip_liquid_suffixes};
pub use crate::values::extract_toml_string;
pub use crate::version::check_cargo_generate_version;
