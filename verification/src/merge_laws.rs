//! What holds of merging settings under conditions, however often and in whatever order.

use crate::config::{ConditionalView, ConfigView, Vcs};
use crate::merge::{adds_placeholders, extended, left_over, merged_all, merged_up_to};
use crate::table::TableView;
use vstd::multiset::Multiset;
use vstd::prelude::*;
use vstd::seq_lib::{commutative_foldl, lemma_fold_left_permutation};

verus! {

/// How many conditions still bring placeholders.
pub open spec fn pending(conditionals: Seq<(Seq<char>, ConditionalView)>) -> nat
    decreases conditionals.len(),
{
    if conditionals.len() == 0 {
        0
    } else {
        pending(conditionals.drop_last()) + (if conditionals.last().1.placeholders is Some {
            1nat
        } else {
            0nat
        })
    }
}

/// The conditions after `n` rounds, where `script(k)` are the verdicts of round `k`.
pub open spec fn after_rounds(
    conditionals: Seq<(Seq<char>, ConditionalView)>,
    script: spec_fn(nat) -> Seq<Option<bool>>,
    n: nat,
) -> Seq<(Seq<char>, ConditionalView)>
    decreases n,
{
    if n == 0 {
        conditionals
    } else {
        let k = (n - 1) as nat;
        left_over(after_rounds(conditionals, script, k), script(k))
    }
}

pub proof fn lemma_pending_shrinks(
    conditionals: Seq<(Seq<char>, ConditionalView)>,
    verdicts: Seq<Option<bool>>,
)
    ensures
        pending(left_over(conditionals, verdicts)) <= pending(conditionals),
        adds_placeholders(conditionals, verdicts) ==> pending(left_over(conditionals, verdicts))
            < pending(conditionals),
    decreases conditionals.len(),
{
    let rest = left_over(conditionals, verdicts);
    if conditionals.len() > 0 {
        let front = conditionals.drop_last();
        lemma_pending_shrinks(front, verdicts);
        assert(rest.drop_last() =~= left_over(front, verdicts));
        if adds_placeholders(conditionals, verdicts) {
            let i = choose|i: int|
                0 <= i < conditionals.len() && verdicts[i] == Some(true) && (
                #[trigger] conditionals[i]).1.placeholders is Some;
            if i < front.len() {
                assert(front[i].1.placeholders is Some);
            }
        }
    }
}

proof fn lemma_nothing_pending(
    conditionals: Seq<(Seq<char>, ConditionalView)>,
    verdicts: Seq<Option<bool>>,
)
    requires
        pending(conditionals) == 0,
    ensures
        !adds_placeholders(conditionals, verdicts),
{
    lemma_pending_shrinks(conditionals, verdicts);
}

proof fn lemma_rounds(
    conditionals: Seq<(Seq<char>, ConditionalView)>,
    script: spec_fn(nat) -> Seq<Option<bool>>,
    n: nat,
)
    requires
        forall|k: nat|
            k < n ==> adds_placeholders(#[trigger] after_rounds(conditionals, script, k), script(k)),
    ensures
        pending(after_rounds(conditionals, script, n)) + n <= pending(conditionals),
    decreases n,
{
    if n > 0 {
        let k = (n - 1) as nat;
        lemma_rounds(conditionals, script, k);
        lemma_pending_shrinks(after_rounds(conditionals, script, k), script(k));
    }
}

/// Whatever the scripts say, a round without new placeholders comes, after no more rounds than
/// there are conditions that bring placeholders.
pub proof fn law_rounds_come_to_an_end(
    conditionals: Seq<(Seq<char>, ConditionalView)>,
    script: spec_fn(nat) -> Seq<Option<bool>>,
)
    ensures
        exists|n: nat|
            n <= pending(conditionals) && !adds_placeholders(
                #[trigger] after_rounds(conditionals, script, n),
                script(n),
            ),
{
    let last = pending(conditionals);
    if forall|k: nat|
        k < last ==> adds_placeholders(
            #[trigger] after_rounds(conditionals, script, k),
            script(k),
        ) {
        lemma_rounds(conditionals, script, last);
        lemma_nothing_pending(after_rounds(conditionals, script, last), script(last));
        assert(!adds_placeholders(after_rounds(conditionals, script, last), script(last)));
    } else {
        let k = choose|k: nat|
            k < last && !adds_placeholders(
                #[trigger] after_rounds(conditionals, script, k),
                script(k),
            );
        assert(!adds_placeholders(after_rounds(conditionals, script, k), script(k)));
    }
}

proof fn lemma_merged_spent(
    config: ConfigView,
    conditionals: Seq<(Seq<char>, ConditionalView)>,
    verdicts: Seq<Option<bool>>,
    n: int,
)
    requires
        0 <= n <= conditionals.len(),
        config.template is Some || (forall|i: int| 0 <= i < n ==> #[trigger] verdicts[i] != Some(
            true,
        )),
    ensures
        merged_up_to(config, left_over(conditionals, verdicts), verdicts, n) == config,
    decreases n,
{
    if n > 0 {
        lemma_merged_spent(config, conditionals, verdicts, n - 1);
        if verdicts[n - 1] == Some(true) {
            assert(config.merged(ConditionalView::spent()) =~= config);
        }
    }
}

proof fn lemma_merged_template(
    config: ConfigView,
    conditionals: Seq<(Seq<char>, ConditionalView)>,
    verdicts: Seq<Option<bool>>,
    n: int,
)
    requires
        0 <= n,
    ensures
        merged_up_to(config, conditionals, verdicts, n).template is Some || (forall|i: int|
            0 <= i < n ==> #[trigger] verdicts[i] != Some(true)),
    decreases n,
{
    if n > 0 {
        lemma_merged_template(config, conditionals, verdicts, n - 1);
    }
}

/// Settings are merged once: with the same verdicts, a second round changes nothing more.
pub proof fn law_settings_are_merged_once(
    config: ConfigView,
    conditionals: Seq<(Seq<char>, ConditionalView)>,
    verdicts: Seq<Option<bool>>,
)
    ensures
        ({
            let after = merged_all(config, conditionals, verdicts);
            let rest = left_over(conditionals, verdicts);
            &&& merged_all(after, rest, verdicts) == after
            &&& left_over(rest, verdicts) == rest
            &&& !adds_placeholders(rest, verdicts)
        }),
{
    let after = merged_all(config, conditionals, verdicts);
    let rest = left_over(conditionals, verdicts);
    lemma_merged_template(config, conditionals, verdicts, conditionals.len() as int);
    lemma_merged_spent(after, conditionals, verdicts, conditionals.len() as int);
    assert(left_over(rest, verdicts) =~= rest);
}

/// The list `after` goes on where `before` ends.
pub open spec fn continues(before: Option<Seq<String>>, after: Option<Seq<String>>) -> bool {
    before matches Some(b) ==> (after matches Some(a) && b.is_prefix_of(a))
}

proof fn lemma_merge_keeps(
    config: ConfigView,
    conditionals: Seq<(Seq<char>, ConditionalView)>,
    verdicts: Seq<Option<bool>>,
    n: int,
)
    requires
        0 <= n,
    ensures
        keeps(config, merged_up_to(config, conditionals, verdicts, n)),
    decreases n,
{
    if n > 0 {
        lemma_merge_keeps(config, conditionals, verdicts, n - 1);
        let before = merged_up_to(config, conditionals, verdicts, n - 1);
        if verdicts[n - 1] == Some(true) {
            let extra = conditionals[n - 1].1;
            let start = config.template_or_unset();
            let mid = before.template_or_unset();
            lemma_continues(start.includes, mid.includes, extra.includes);
            lemma_continues(start.excludes, mid.excludes, extra.excludes);
            lemma_continues(start.ignores, mid.ignores, extra.ignores);
        }
    } else {
        let start = config.template_or_unset();
        lemma_continues(start.includes, start.includes, None);
        lemma_continues(start.excludes, start.excludes, None);
        lemma_continues(start.ignores, start.ignores, None);
    }
}

proof fn lemma_continues(
    start: Option<Seq<String>>,
    mid: Option<Seq<String>>,
    more: Option<Seq<String>>,
)
    requires
        start == mid || continues(start, mid),
    ensures
        continues(start, extended(mid, more)),
{
    if let Some(s) = start {
        let end = extended(mid, more)->0;
        assert(s =~= mid->0.subrange(0, s.len() as int));
        assert(s =~= end.subrange(0, s.len() as int));
    }
}

/// The configuration `after` has everything that `before` has.
pub open spec fn keeps(before: ConfigView, after: ConfigView) -> bool {
    let b = before.template_or_unset();
    let a = after.template_or_unset();
    &&& continues(b.includes, a.includes)
    &&& continues(b.excludes, a.excludes)
    &&& continues(b.ignores, a.ignores)
    &&& a.cargo_generate_version == b.cargo_generate_version
    &&& a.vcs == b.vcs
    &&& a.init == b.init
    &&& a.sub_templates == b.sub_templates
    &&& before.placeholders matches Some(p) ==> {
        &&& after.placeholders matches Some(q)
        &&& p.values.dom().subset_of(q.values.dom())
        &&& p.order.is_prefix_of(q.order)
    }
}

/// Merging only adds: the lists go on where they ended, no placeholder goes away or changes its
/// place, and the other settings stay as they are.
pub proof fn law_merging_only_adds(
    config: ConfigView,
    conditionals: Seq<(Seq<char>, ConditionalView)>,
    verdicts: Seq<Option<bool>>,
)
    ensures
        keeps(config, merged_all(config, conditionals, verdicts)),
{
    lemma_merge_keeps(config, conditionals, verdicts, conditionals.len() as int);
}

/// What a configuration holds, apart from the order of its texts and placeholders, and from what
/// the placeholders are.
#[verifier::ext_equal]
pub struct Gathered {
    pub cargo_generate_version: Option<String>,
    pub includes: Option<Multiset<String>>,
    pub excludes: Option<Multiset<String>>,
    pub ignores: Option<Multiset<String>>,
    pub vcs: Option<Vcs>,
    pub init: Option<bool>,
    pub sub_templates: Option<Vec<String>>,
    pub placeholders: Option<Set<Seq<char>>>,
}

/// The texts of a list in any order.
pub open spec fn bag(texts: Option<Seq<String>>) -> Option<Multiset<String>> {
    match texts {
        Some(t) => Some(t.to_multiset()),
        None => None,
    }
}

/// The names of placeholders in any order.
pub open spec fn names(placeholders: Option<TableView>) -> Option<Set<Seq<char>>> {
    match placeholders {
        Some(p) => Some(p.values.dom()),
        None => None,
    }
}

/// What a configuration holds, in any order.
pub open spec fn gathered(config: ConfigView) -> Gathered {
    let template = config.template_or_unset();
    Gathered {
        cargo_generate_version: template.cargo_generate_version,
        includes: bag(template.includes),
        excludes: bag(template.excludes),
        ignores: bag(template.ignores),
        vcs: template.vcs,
        init: template.init,
        sub_templates: template.sub_templates,
        placeholders: names(config.placeholders),
    }
}

spec fn with_bag(a: Option<Multiset<String>>, b: Option<Multiset<String>>) -> Option<
    Multiset<String>,
> {
    match (a, b) {
        (Some(x), Some(y)) => Some(x.add(y)),
        (None, y) => y,
        (x, None) => x,
    }
}

spec fn with_names(a: Option<Set<Seq<char>>>, b: Option<Set<Seq<char>>>) -> Option<
    Set<Seq<char>>,
> {
    match (a, b) {
        (Some(x), Some(y)) => Some(x.union(y)),
        (None, y) => y,
        (x, None) => x,
    }
}

/// Each condition with its settings and whether it holds.
pub open spec fn judged(
    conditionals: Seq<(Seq<char>, ConditionalView)>,
    verdicts: Seq<Option<bool>>,
) -> Seq<((Seq<char>, ConditionalView), bool)> {
    Seq::new(
        conditionals.len(),
        |i: int| (conditionals[i], verdicts[i] == Some(true)),
    )
}

spec fn gather() -> spec_fn(Gathered, ((Seq<char>, ConditionalView), bool)) -> Gathered {
    |g: Gathered, block: ((Seq<char>, ConditionalView), bool)|
        if block.1 {
            Gathered {
                includes: with_bag(g.includes, bag(block.0.1.includes)),
                excludes: with_bag(g.excludes, bag(block.0.1.excludes)),
                ignores: with_bag(g.ignores, bag(block.0.1.ignores)),
                placeholders: with_names(g.placeholders, names(block.0.1.placeholders)),
                ..g
            }
        } else {
            g
        }
}

proof fn lemma_bag_extended(texts: Option<Seq<String>>, more: Option<Seq<String>>)
    ensures
        bag(extended(texts, more)) == with_bag(bag(texts), bag(more)),
{
    if let Some(m) = more {
        match texts {
            Some(t) => {
                vstd::seq_lib::lemma_multiset_commutative(t, m);
            },
            None => {
                assert(Seq::<String>::empty() + m =~= m);
            },
        }
    }
}

proof fn lemma_gathered_up_to(
    config: ConfigView,
    conditionals: Seq<(Seq<char>, ConditionalView)>,
    verdicts: Seq<Option<bool>>,
    n: int,
)
    requires
        0 <= n <= conditionals.len(),
    ensures
        gathered(merged_up_to(config, conditionals, verdicts, n)) == judged(
            conditionals,
            verdicts,
        ).take(n).fold_left(gathered(config), gather()),
    decreases n,
{
    let blocks = judged(conditionals, verdicts);
    if n > 0 {
        lemma_gathered_up_to(config, conditionals, verdicts, n - 1);
        assert(blocks.take(n).drop_last() =~= blocks.take(n - 1));
        assert(blocks.take(n).last() == blocks[n - 1]);
        let before = merged_up_to(config, conditionals, verdicts, n - 1);
        if verdicts[n - 1] == Some(true) {
            let extra = conditionals[n - 1].1;
            let template = before.template_or_unset();
            lemma_bag_extended(template.includes, extra.includes);
            lemma_bag_extended(template.excludes, extra.excludes);
            lemma_bag_extended(template.ignores, extra.ignores);
            assert(names(before.merged(extra).placeholders) =~= with_names(
                names(before.placeholders),
                names(extra.placeholders),
            )) by {
                if before.placeholders is Some && extra.placeholders is Some {
                    let p = before.placeholders->0.values;
                    let m = extra.placeholders->0.values;
                    assert(p.union_prefer_right(m).dom() =~= p.dom().union(m.dom()));
                }
            }
        }
    }
}

proof fn lemma_gather_commutes()
    ensures
        commutative_foldl(gather()),
{
    let f = gather();
    assert forall|
        x: ((Seq<char>, ConditionalView), bool),
        y: ((Seq<char>, ConditionalView), bool),
        v: Gathered,
    | #[trigger] f(f(v, x), y) == f(f(v, y), x) by {
        lemma_with_bag_commutes(v.includes, bag(x.0.1.includes), bag(y.0.1.includes));
        lemma_with_bag_commutes(v.excludes, bag(x.0.1.excludes), bag(y.0.1.excludes));
        lemma_with_bag_commutes(v.ignores, bag(x.0.1.ignores), bag(y.0.1.ignores));
        lemma_with_names_commutes(
            v.placeholders,
            names(x.0.1.placeholders),
            names(y.0.1.placeholders),
        );
        assert(f(f(v, x), y) =~= f(f(v, y), x));
    }
}

proof fn lemma_with_bag_commutes(
    a: Option<Multiset<String>>,
    b: Option<Multiset<String>>,
    c: Option<Multiset<String>>,
)
    ensures
        with_bag(with_bag(a, b), c) == with_bag(with_bag(a, c), b),
{
    if b is Some && c is Some {
        match a {
            Some(x) => {
                assert(x.add(b->0).add(c->0) =~= x.add(c->0).add(b->0));
            },
            None => {
                assert(b->0.add(c->0) =~= c->0.add(b->0));
            },
        }
    }
}

proof fn lemma_with_names_commutes(
    a: Option<Set<Seq<char>>>,
    b: Option<Set<Seq<char>>>,
    c: Option<Set<Seq<char>>>,
)
    ensures
        with_names(with_names(a, b), c) == with_names(with_names(a, c), b),
{
    if b is Some && c is Some {
        match a {
            Some(x) => {
                assert(x.union(b->0).union(c->0) =~= x.union(c->0).union(b->0));
            },
            None => {
                assert(b->0.union(c->0) =~= c->0.union(b->0));
            },
        }
    }
}

proof fn lemma_adds_elsewhere(
    one: Seq<(Seq<char>, ConditionalView)>,
    one_verdicts: Seq<Option<bool>>,
    other: Seq<(Seq<char>, ConditionalView)>,
    other_verdicts: Seq<Option<bool>>,
)
    requires
        judged(one, one_verdicts).to_multiset() == judged(other, other_verdicts).to_multiset(),
        adds_placeholders(one, one_verdicts),
    ensures
        adds_placeholders(other, other_verdicts),
{
    broadcast use vstd::seq_lib::group_to_multiset_ensures;

    let i = choose|i: int|
        0 <= i < one.len() && one_verdicts[i] == Some(true) && (
        #[trigger] one[i]).1.placeholders is Some;
    let block = judged(one, one_verdicts)[i];
    assert(judged(one, one_verdicts).contains(block));
    assert(judged(one, one_verdicts).to_multiset().count(block) > 0);
    assert(judged(other, other_verdicts).to_multiset().count(block) > 0);
    assert(judged(other, other_verdicts).contains(block));
    let j = judged(other, other_verdicts).index_of(block);
    assert(other[j].1.placeholders is Some);
}

/// The order of the conditions does not matter for what the configuration holds afterwards,
/// apart from the order of it, nor for whether another round is due. What a placeholder is that
/// two conditions define is up to the later of them.
pub proof fn law_order_of_conditions_does_not_matter(
    config: ConfigView,
    one: Seq<(Seq<char>, ConditionalView)>,
    one_verdicts: Seq<Option<bool>>,
    other: Seq<(Seq<char>, ConditionalView)>,
    other_verdicts: Seq<Option<bool>>,
)
    requires
        judged(one, one_verdicts).to_multiset() == judged(other, other_verdicts).to_multiset(),
    ensures
        gathered(merged_all(config, one, one_verdicts)) == gathered(
            merged_all(config, other, other_verdicts),
        ),
        adds_placeholders(one, one_verdicts) == adds_placeholders(other, other_verdicts),
{
    lemma_gathered_up_to(config, one, one_verdicts, one.len() as int);
    lemma_gathered_up_to(config, other, other_verdicts, other.len() as int);
    let a = judged(one, one_verdicts);
    let b = judged(other, other_verdicts);
    assert(a.take(one.len() as int) =~= a);
    assert(b.take(other.len() as int) =~= b);
    lemma_gather_commutes();
    lemma_fold_left_permutation(a, b, gather(), gathered(config));
    if adds_placeholders(one, one_verdicts) {
        lemma_adds_elsewhere(one, one_verdicts, other, other_verdicts);
    }
    if adds_placeholders(other, other_verdicts) {
        lemma_adds_elsewhere(other, other_verdicts, one, one_verdicts);
    }
}

} // verus!
