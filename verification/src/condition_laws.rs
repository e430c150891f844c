//! What a configuration is after settings under conditions were merged into it, one condition
//! after the other.

use crate::config::{
    list, Conditional, ConditionalConfig, ConditionalView, Config, ConfigView, TemplateConfig,
    TemplateView,
};
use crate::merge::{
    adds_placeholders, extended, extended_placeholders, left_over, merged_all, merged_up_to,
};
use crate::table::TableView;
use vstd::prelude::*;

verus! {

/// A list is followed by the texts that are merged into it, and by nothing else. A list that was
/// missing is then the merged one. Where nothing is merged, it stays as it is.
pub proof fn law_lists_are_put_one_after_the_other(
    texts: Option<Seq<String>>,
    more: Option<Seq<String>>,
)
    ensures
        more is None ==> extended(texts, more) == texts,
        texts is None ==> extended(texts, more) == more,
        texts is Some && more is Some ==> extended(texts, more) == Some(texts->0 + more->0),
{
    if texts is None && more is Some {
        assert(Seq::<String>::empty() + more->0 =~= more->0);
    }
}

/// Merged placeholders are added to those that are there. Where there are none, they are all.
pub proof fn law_placeholders_are_added(
    placeholders: Option<TableView>,
    more: Option<TableView>,
)
    ensures
        more is None ==> extended_placeholders(placeholders, more) == placeholders,
        placeholders is None ==> extended_placeholders(placeholders, more) == more,
        placeholders is Some && more is Some ==> extended_placeholders(placeholders, more) == Some(
            placeholders->0.with_all(more->0),
        ),
{
}

/// What one condition changes: its lists follow those of the template, and its placeholders are
/// added. The template has settings afterwards. Nothing else changes.
pub proof fn law_merging_one_condition(config: ConfigView, extra: ConditionalView)
    ensures
        ({
            let after = config.merged(extra);
            &&& after.template is Some
            &&& after.placeholders == extended_placeholders(
                config.placeholders,
                extra.placeholders,
            )
            &&& config.template matches Some(before) ==> {
                &&& after.template->0.includes == extended(before.includes, extra.includes)
                &&& after.template->0.excludes == extended(before.excludes, extra.excludes)
                &&& after.template->0.ignores == extended(before.ignores, extra.ignores)
                &&& after.template->0.cargo_generate_version == before.cargo_generate_version
                &&& after.template->0.vcs == before.vcs
                &&& after.template->0.init == before.init
                &&& after.template->0.sub_templates == before.sub_templates
            }
            &&& config.template is None ==> {
                &&& after.template->0.includes == extra.includes
                &&& after.template->0.excludes == extra.excludes
                &&& after.template->0.ignores == extra.ignores
                &&& after.template->0.cargo_generate_version is None
                &&& after.template->0.vcs is None
                &&& after.template->0.init is None
                &&& after.template->0.sub_templates is None
            }
        }),
{
    law_lists_are_put_one_after_the_other(None, extra.includes);
    law_lists_are_put_one_after_the_other(None, extra.excludes);
    law_lists_are_put_one_after_the_other(None, extra.ignores);
}

proof fn lemma_merged_front(
    config: ConfigView,
    conditionals: Seq<(Seq<char>, ConditionalView)>,
    verdicts: Seq<Option<bool>>,
    block: (Seq<char>, ConditionalView),
    verdict: Option<bool>,
    n: int,
)
    requires
        n <= conditionals.len() == verdicts.len(),
    ensures
        merged_up_to(config, conditionals.push(block), verdicts.push(verdict), n) == merged_up_to(
            config,
            conditionals,
            verdicts,
            n,
        ),
    decreases n,
{
    if n > 0 {
        lemma_merged_front(config, conditionals, verdicts, block, verdict, n - 1);
    }
}

/// Conditions are merged one by one. One more condition at the end is merged if its script says
/// that it holds, and changes nothing if the script says that it does not, or fails. Without
/// conditions nothing changes.
pub proof fn law_conditions_are_merged_one_by_one(
    config: ConfigView,
    conditionals: Seq<(Seq<char>, ConditionalView)>,
    verdicts: Seq<Option<bool>>,
    block: (Seq<char>, ConditionalView),
    verdict: Option<bool>,
)
    requires
        conditionals.len() == verdicts.len(),
    ensures
        ({
            let before = merged_all(config, conditionals, verdicts);
            let after = merged_all(config, conditionals.push(block), verdicts.push(verdict));
            &&& verdict == Some(true) ==> after == before.merged(block.1)
            &&& verdict == Some(false) ==> after == before
            &&& verdict is None ==> after == before
        }),
        conditionals.len() == 0 ==> merged_all(config, conditionals, verdicts) == config,
{
    lemma_merged_front(
        config,
        conditionals,
        verdicts,
        block,
        verdict,
        conditionals.len() as int,
    );
}

/// After a round, conditions are what they were, in number, in order and in their scripts. One
/// that held has nothing left; all others have what they had.
pub proof fn law_only_what_held_is_used_up(
    conditionals: Seq<(Seq<char>, ConditionalView)>,
    verdicts: Seq<Option<bool>>,
    i: int,
)
    requires
        0 <= i < conditionals.len(),
    ensures
        ({
            let rest = left_over(conditionals, verdicts);
            &&& rest.len() == conditionals.len()
            &&& rest[i].0 == conditionals[i].0
            &&& verdicts[i] == Some(true) ==> {
                &&& rest[i].1.includes is None
                &&& rest[i].1.excludes is None
                &&& rest[i].1.ignores is None
                &&& rest[i].1.placeholders is None
            }
            &&& verdicts[i] != Some(true) ==> rest[i] == conditionals[i]
        }),
{
}

/// Another round is due where a condition that held brought placeholders, and nowhere else. One
/// more condition at the end makes one due if it did so.
pub proof fn law_new_placeholders_make_another_round_due(
    conditionals: Seq<(Seq<char>, ConditionalView)>,
    verdicts: Seq<Option<bool>>,
    block: (Seq<char>, ConditionalView),
    verdict: Option<bool>,
)
    requires
        conditionals.len() == verdicts.len(),
    ensures
        adds_placeholders(conditionals.push(block), verdicts.push(verdict)) <==> adds_placeholders(
            conditionals,
            verdicts,
        ) || (verdict == Some(true) && block.1.placeholders is Some),
        conditionals.len() == 0 ==> !adds_placeholders(conditionals, verdicts),
{
    let more = conditionals.push(block);
    let judged = verdicts.push(verdict);
    if adds_placeholders(more, judged) {
        let i = choose|i: int|
            0 <= i < more.len() && judged[i] == Some(true) && (
            #[trigger] more[i]).1.placeholders is Some;
        if i < conditionals.len() {
            assert(conditionals[i].1.placeholders is Some);
        }
    }
    if adds_placeholders(conditionals, verdicts) {
        let i = choose|i: int|
            0 <= i < conditionals.len() && verdicts[i] == Some(true) && (
            #[trigger] conditionals[i]).1.placeholders is Some;
        assert(more[i].1.placeholders is Some);
    }
    if verdict == Some(true) && block.1.placeholders is Some {
        assert(more[conditionals.len() as int].1.placeholders is Some);
    }
}

/// Settings that are missing set nothing. Taking them out leaves none behind, putting some in
/// leaves these, and neither touches the placeholders.
pub proof fn law_settings_of_the_template(config: ConfigView, template: TemplateView)
    ensures
        config.template matches Some(there) ==> config.template_or_unset() == there,
        config.template is None ==> {
            let unset = config.template_or_unset();
            &&& unset.cargo_generate_version is None
            &&& unset.includes is None
            &&& unset.excludes is None
            &&& unset.ignores is None
            &&& unset.vcs is None
            &&& unset.init is None
            &&& unset.sub_templates is None
        },
        config.without_template().template is None,
        config.without_template().placeholders == config.placeholders,
        config.with_template(template).template == Some(template),
        config.with_template(template).placeholders == config.placeholders,
{
}

/// The model of a configuration has its lists, its other settings and its placeholders.
pub proof fn law_nothing_of_a_configuration_is_lost(
    config: Config,
    template: TemplateConfig,
    texts: Vec<String>,
)
    ensures
        list(Some(texts)) == Some(texts@),
        list(None) is None,
        template@.cargo_generate_version == template.cargo_generate_version,
        template@.includes == list(template.includes),
        template@.excludes == list(template.excludes),
        template@.ignores == list(template.ignores),
        template@.vcs == template.vcs,
        template@.init == template.init,
        template@.sub_templates == template.sub_templates,
        template.deep_view() == template@,
        config.template matches Some(t) ==> config@.template == Some(t@),
        config.template is None ==> config@.template is None,
        config.placeholders matches Some(p) ==> config@.placeholders == Some(p@),
        config.placeholders is None ==> config@.placeholders is None,
{
}

/// The model of a condition has its script and the settings under it.
pub proof fn law_nothing_of_a_condition_is_lost(
    conditional: Conditional,
    settings: ConditionalConfig,
)
    ensures
        conditional@.0 == conditional.condition@,
        conditional@.1 == conditional.config@,
        conditional.deep_view() == conditional@,
        settings@.includes == list(settings.includes),
        settings@.excludes == list(settings.excludes),
        settings@.ignores == list(settings.ignores),
        settings.placeholders matches Some(p) ==> settings@.placeholders == Some(p@),
        settings.placeholders is None ==> settings@.placeholders is None,
{
}

} // verus!
