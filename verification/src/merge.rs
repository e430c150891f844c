//! How the settings under conditions are merged into a configuration.

use crate::config::{
    list, Conditional, ConditionalConfig, ConditionalView, Config, ConfigView, TemplateConfig,
    TemplateView,
};
use crate::table::TableView;
use vstd::prelude::*;

verus! {

/// A list with more texts at its end. Where there is a list of more texts, there is a list
/// afterwards.
pub open spec fn extended(texts: Option<Seq<String>>, more: Option<Seq<String>>) -> Option<
    Seq<String>,
> {
    match more {
        Some(m) => Some(
            (match texts {
                Some(t) => t,
                None => Seq::empty(),
            }) + m,
        ),
        None => texts,
    }
}

/// The placeholders with more of them. A placeholder that is defined anew is replaced.
pub open spec fn extended_placeholders(
    placeholders: Option<TableView>,
    more: Option<TableView>,
) -> Option<TableView> {
    match (placeholders, more) {
        (Some(p), Some(m)) => Some(p.with_all(m)),
        (None, Some(m)) => Some(m),
        (p, None) => p,
    }
}

impl ConfigView {
    /// The configuration with the settings of one condition merged into it.
    pub open spec fn merged(self, extra: ConditionalView) -> ConfigView {
        let template = self.template_or_unset();
        ConfigView {
            template: Some(
                TemplateView {
                    includes: extended(template.includes, extra.includes),
                    excludes: extended(template.excludes, extra.excludes),
                    ignores: extended(template.ignores, extra.ignores),
                    ..template
                },
            ),
            placeholders: extended_placeholders(self.placeholders, extra.placeholders),
        }
    }
}

fn extend_list(texts: &mut Option<Vec<String>>, more: Option<Vec<String>>)
    ensures
        list(*final(texts)) == extended(list(*old(texts)), list(more)),
{
    if let Some(mut extras) = more {
        let mut all: Vec<String> = match texts.take() {
            Some(t) => t,
            None => Vec::new(),
        };
        all.append(&mut extras);
        *texts = Some(all);
    }
}

/// Merges the settings of one condition into the configuration, and takes them away from the
/// condition. Tells whether there were placeholders among them.
fn merge_conditional(config: &mut Config, extra: &mut ConditionalConfig) -> (changed: bool)
    ensures
        final(config)@ == old(config)@.merged(old(extra)@),
        final(config).conditional == old(config).conditional,
        final(extra)@ == ConditionalView::spent(),
        changed == old(extra)@.placeholders is Some,
{
    let mut template: TemplateConfig = match config.template.take() {
        Some(t) => t,
        None => TemplateConfig::unset(),
    };
    extend_list(&mut template.includes, extra.includes.take());
    extend_list(&mut template.excludes, extra.excludes.take());
    extend_list(&mut template.ignores, extra.ignores.take());
    config.template = Some(template);
    match extra.placeholders.take() {
        Some(more) => {
            match config.placeholders.take() {
                Some(mut placeholders) => {
                    placeholders.insert_all(more);
                    config.placeholders = Some(placeholders);
                },
                None => {
                    config.placeholders = Some(more);
                },
            }
            true
        },
        None => false,
    }
}

/// The configuration after the first `n` conditions: the settings of those that hold are
/// merged into it, in order. A condition whose script fails does not hold.
pub open spec fn merged_up_to(
    config: ConfigView,
    conditionals: Seq<(Seq<char>, ConditionalView)>,
    verdicts: Seq<Option<bool>>,
    n: int,
) -> ConfigView
    decreases n,
{
    if n <= 0 {
        config
    } else {
        let before = merged_up_to(config, conditionals, verdicts, n - 1);
        if verdicts[n - 1] == Some(true) {
            before.merged(conditionals[n - 1].1)
        } else {
            before
        }
    }
}

/// The configuration with the settings of all conditions that hold.
pub open spec fn merged_all(
    config: ConfigView,
    conditionals: Seq<(Seq<char>, ConditionalView)>,
    verdicts: Seq<Option<bool>>,
) -> ConfigView {
    merged_up_to(config, conditionals, verdicts, conditionals.len() as int)
}

/// What is left to merge afterwards: nothing of the conditions that hold, everything of the
/// others.
pub open spec fn left_over(
    conditionals: Seq<(Seq<char>, ConditionalView)>,
    verdicts: Seq<Option<bool>>,
) -> Seq<(Seq<char>, ConditionalView)> {
    Seq::new(
        conditionals.len(),
        |i: int|
            if verdicts[i] == Some(true) {
                (conditionals[i].0, ConditionalView::spent())
            } else {
                conditionals[i]
            },
    )
}

/// Some condition that holds brings placeholders.
pub open spec fn adds_placeholders(
    conditionals: Seq<(Seq<char>, ConditionalView)>,
    verdicts: Seq<Option<bool>>,
) -> bool {
    exists|i: int|
        0 <= i < conditionals.len() && verdicts[i] == Some(true) && (
        #[trigger] conditionals[i]).1.placeholders is Some
}

/// Takes the conditions out of a configuration.
pub fn take_conditionals(config: &mut Config) -> (r: Vec<Conditional>)
    ensures
        r@ == (match old(config).conditional {
            Some(c) => c@,
            None => Seq::empty(),
        }),
        final(config).conditional is None,
        final(config)@ == old(config)@,
{
    match config.conditional.take() {
        Some(c) => c,
        None => Vec::new(),
    }
}

/// One round of filling placeholders and merging conditions, after the placeholders known so
/// far have been filled: merges the settings under the conditions that hold, and tells whether
/// placeholders were added, so that another round is due. The verdicts are what the scripts of
/// the conditions gave, `None` where a script failed.
pub fn fill_placeholders_and_merge_conditionals(
    config: &mut Config,
    conditionals: &mut Vec<Conditional>,
    verdicts: &Vec<Option<bool>>,
) -> (again: bool)
    requires
        verdicts@.len() == old(conditionals)@.len(),
    ensures
        final(config)@ == merged_all(old(config)@, old(conditionals).deep_view(), verdicts@),
        final(config).conditional == old(config).conditional,
        final(conditionals).deep_view() == left_over(old(conditionals).deep_view(), verdicts@),
        again == adds_placeholders(old(conditionals).deep_view(), verdicts@),
{
    let mut again: bool = false;
    let mut i: usize = 0;
    let ghost before = conditionals.deep_view();
    let ghost start = config@;
    while i < conditionals.len()
        invariant
            i <= conditionals@.len(),
            conditionals@.len() == before.len() == verdicts@.len(),
            config@ == merged_up_to(start, before, verdicts@, i as int),
            config.conditional == old(config).conditional,
            forall|j: int|
                0 <= j < conditionals@.len() ==> #[trigger] conditionals.deep_view()[j] == (if j < i
                    && verdicts@[j] == Some(true) {
                    (before[j].0, ConditionalView::spent())
                } else {
                    before[j]
                }),
            again <==> exists|j: int|
                0 <= j < i && verdicts@[j] == Some(true) && (
                #[trigger] before[j]).1.placeholders is Some,
        decreases conditionals@.len() - i,
    {
        assert(conditionals.deep_view()[i as int] == before[i as int]);
        let holds: bool = match verdicts[i] {
            Some(b) => b,
            None => false,
        };
        if holds {
            let ghost earlier = conditionals.deep_view();
            let changed: bool = merge_conditional(config, &mut conditionals[i].config);
            again = again || changed;
            assert forall|j: int| 0 <= j < conditionals@.len() && j != i implies #[trigger]
                conditionals.deep_view()[j] == earlier[j] by {}
        }
        i = i + 1;
    }
    assert(conditionals.deep_view() =~= left_over(before, verdicts@));
    again
}

} // verus!
