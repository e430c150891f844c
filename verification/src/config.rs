//! The configuration of a template.

use crate::table::{TableView, ValueTable};
use vstd::prelude::*;

verus! {

/// The name of the file that configures a template.
pub const CONFIG_FILE_NAME: &'static str = "cargo-generate.toml";

/// The version control system of a new project.
#[derive(Clone, Copy, PartialEq, Eq, Debug, Structural)]
pub enum Vcs {
    /// The project is not put under version control.
    NoVcs,
    Git,
}

/// The settings of a template.
#[derive(Debug)]
pub struct TemplateConfig {
    /// The versions of the generator that can expand the template.
    pub cargo_generate_version: Option<String>,
    /// Patterns of the only files to expand.
    pub includes: Option<Vec<String>>,
    /// Patterns of files not to expand.
    pub excludes: Option<Vec<String>>,
    /// Files that are not part of the template.
    pub ignores: Option<Vec<String>>,
    pub vcs: Option<Vcs>,
    pub init: Option<bool>,
    pub sub_templates: Option<Vec<String>>,
}

/// Settings that hold only where a condition does.
#[derive(Debug)]
pub struct ConditionalConfig {
    pub includes: Option<Vec<String>>,
    pub excludes: Option<Vec<String>>,
    pub ignores: Option<Vec<String>>,
    pub placeholders: Option<ValueTable>,
}

/// A condition, as a script, and the settings under it.
#[derive(Debug)]
pub struct Conditional {
    pub condition: String,
    pub config: ConditionalConfig,
}

/// The configuration of a template.
#[derive(Debug)]
pub struct Config {
    pub template: Option<TemplateConfig>,
    pub placeholders: Option<ValueTable>,
    pub conditional: Option<Vec<Conditional>>,
}

/// The texts of a list that may be missing.
pub open spec fn list(texts: Option<Vec<String>>) -> Option<Seq<String>> {
    match texts {
        Some(t) => Some(t@),
        None => None,
    }
}

/// What a [`TemplateConfig`] holds.
#[verifier::ext_equal]
pub struct TemplateView {
    pub cargo_generate_version: Option<String>,
    pub includes: Option<Seq<String>>,
    pub excludes: Option<Seq<String>>,
    pub ignores: Option<Seq<String>>,
    pub vcs: Option<Vcs>,
    pub init: Option<bool>,
    pub sub_templates: Option<Vec<String>>,
}

impl View for TemplateConfig {
    type V = TemplateView;

    open spec fn view(&self) -> TemplateView {
        TemplateView {
            cargo_generate_version: self.cargo_generate_version,
            includes: list(self.includes),
            excludes: list(self.excludes),
            ignores: list(self.ignores),
            vcs: self.vcs,
            init: self.init,
            sub_templates: self.sub_templates,
        }
    }
}

impl DeepView for TemplateConfig {
    type V = TemplateView;

    open spec fn deep_view(&self) -> TemplateView {
        self@
    }
}

impl TemplateView {
    /// The settings of a template that sets nothing.
    pub open spec fn unset() -> TemplateView {
        TemplateView {
            cargo_generate_version: None,
            includes: None,
            excludes: None,
            ignores: None,
            vcs: None,
            init: None,
            sub_templates: None,
        }
    }
}

impl TemplateConfig {
    /// The settings of a template that sets nothing.
    pub fn unset() -> (r: TemplateConfig)
        ensures
            r@ == TemplateView::unset(),
    {
        TemplateConfig {
            cargo_generate_version: None,
            includes: None,
            excludes: None,
            ignores: None,
            vcs: None,
            init: None,
            sub_templates: None,
        }
    }
}

/// What a [`ConditionalConfig`] holds.
#[verifier::ext_equal]
pub struct ConditionalView {
    pub includes: Option<Seq<String>>,
    pub excludes: Option<Seq<String>>,
    pub ignores: Option<Seq<String>>,
    pub placeholders: Option<TableView>,
}

impl View for ConditionalConfig {
    type V = ConditionalView;

    open spec fn view(&self) -> ConditionalView {
        ConditionalView {
            includes: list(self.includes),
            excludes: list(self.excludes),
            ignores: list(self.ignores),
            placeholders: self.placeholders.deep_view(),
        }
    }
}

impl View for Conditional {
    type V = (Seq<char>, ConditionalView);

    open spec fn view(&self) -> (Seq<char>, ConditionalView) {
        (self.condition@, self.config@)
    }
}

impl DeepView for Conditional {
    type V = (Seq<char>, ConditionalView);

    open spec fn deep_view(&self) -> (Seq<char>, ConditionalView) {
        self@
    }
}

impl ConditionalView {
    /// Settings of which nothing is left to merge.
    pub open spec fn spent() -> ConditionalView {
        ConditionalView { includes: None, excludes: None, ignores: None, placeholders: None }
    }
}

/// The part of a [`Config`] that conditional settings are merged into.
#[verifier::ext_equal]
pub struct ConfigView {
    pub template: Option<TemplateView>,
    pub placeholders: Option<TableView>,
}

impl View for Config {
    type V = ConfigView;

    open spec fn view(&self) -> ConfigView {
        ConfigView {
            template: self.template.deep_view(),
            placeholders: self.placeholders.deep_view(),
        }
    }
}

impl ConfigView {
    /// The settings of the template, with nothing set where there are none.
    pub open spec fn template_or_unset(self) -> TemplateView {
        match self.template {
            Some(t) => t,
            None => TemplateView::unset(),
        }
    }

    /// The configuration without the settings of the template.
    pub open spec fn without_template(self) -> ConfigView {
        ConfigView { template: None, ..self }
    }

    /// The configuration with other settings of the template.
    pub open spec fn with_template(self, template: TemplateView) -> ConfigView {
        ConfigView { template: Some(template), ..self }
    }
}

/// Takes the settings of the template out of a configuration. Where there are none, nothing is
/// set.
pub fn take_template(config: &mut Config) -> (r: TemplateConfig)
    ensures
        r@ == old(config)@.template_or_unset(),
        final(config)@ == old(config)@.without_template(),
        final(config).conditional == old(config).conditional,
{
    match config.template.take() {
        Some(template) => template,
        None => TemplateConfig::unset(),
    }
}

/// Puts the settings of the template back into a configuration.
pub fn put_template_back(config: &mut Config, template: TemplateConfig)
    ensures
        final(config)@ == old(config)@.with_template(template@),
        final(config).conditional == old(config).conditional,
{
    config.template = Some(template);
}

/// Settings that are taken out and put back as they were are the settings from before. Only
/// where there were none is there now something that sets nothing.
pub proof fn law_putting_back_undoes_taking(config: ConfigView)
    ensures
        ({
            let back = config.without_template().with_template(config.template_or_unset());
            &&& back.template_or_unset() == config.template_or_unset()
            &&& back.placeholders == config.placeholders
            &&& config.template is Some ==> back == config
        }),
{
}

} // verus!
