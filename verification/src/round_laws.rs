//! What holds of a configuration after all the rounds of filling and merging.

use crate::config::{ConditionalView, ConfigView};
use crate::merge::{extended, merged_all, merged_up_to};
use crate::merge_laws::after_rounds;
use vstd::prelude::*;

verus! {

/// The configuration after `n` rounds, where `script(k)` are the verdicts of round `k`.
pub open spec fn config_after_rounds(
    config: ConfigView,
    conditionals: Seq<(Seq<char>, ConditionalView)>,
    script: spec_fn(nat) -> Seq<Option<bool>>,
    n: nat,
) -> ConfigView
    decreases n,
{
    if n == 0 {
        config
    } else {
        let k = (n - 1) as nat;
        merged_all(
            config_after_rounds(config, conditionals, script, k),
            after_rounds(conditionals, script, k),
            script(k),
        )
    }
}

/// Condition `i` held in round `k`.
pub open spec fn held_in(script: spec_fn(nat) -> Seq<Option<bool>>, i: int, k: nat) -> bool {
    script(k)[i] == Some(true)
}

/// Condition `i` held in some round before round `n`.
pub open spec fn has_held(script: spec_fn(nat) -> Seq<Option<bool>>, i: int, n: nat) -> bool {
    exists|k: nat| k < n && #[trigger] held_in(script, i, k)
}

/// Those of the first `m` conditions that hold in round `k` for the first time.
pub open spec fn first_held(script: spec_fn(nat) -> Seq<Option<bool>>, k: nat, m: int) -> Seq<int>
    decreases m,
{
    if m <= 0 {
        Seq::empty()
    } else if held_in(script, m - 1, k) && !has_held(script, m - 1, k) {
        first_held(script, k, m - 1).push(m - 1)
    } else {
        first_held(script, k, m - 1)
    }
}

/// The conditions that held in the first `n` rounds, by the round in which each held first.
pub open spec fn held_order(
    count: int,
    script: spec_fn(nat) -> Seq<Option<bool>>,
    n: nat,
) -> Seq<int>
    decreases n,
{
    if n == 0 {
        Seq::empty()
    } else {
        let k = (n - 1) as nat;
        held_order(count, script, k) + first_held(script, k, count)
    }
}

/// The configuration with the settings of the conditions in `order` merged into it, one after
/// the other.
pub open spec fn merged_in_order(
    config: ConfigView,
    conditionals: Seq<(Seq<char>, ConditionalView)>,
    order: Seq<int>,
) -> ConfigView
    decreases order.len(),
{
    if order.len() == 0 {
        config
    } else {
        merged_in_order(config, conditionals, order.drop_last()).merged(
            conditionals[order.last()].1,
        )
    }
}

/// A list with several lists at its end, one after the other.
pub open spec fn extended_by(start: Option<Seq<String>>, lists: Seq<Option<Seq<String>>>) -> Option<
    Seq<String>,
>
    decreases lists.len(),
{
    if lists.len() == 0 {
        start
    } else {
        extended(extended_by(start, lists.drop_last()), lists.last())
    }
}

proof fn lemma_has_held_next(script: spec_fn(nat) -> Seq<Option<bool>>, i: int, k: nat)
    ensures
        has_held(script, i, k + 1) <==> has_held(script, i, k) || held_in(script, i, k),
{
    if has_held(script, i, k) {
        let j = choose|j: nat| j < k && #[trigger] held_in(script, i, j);
        assert(held_in(script, i, j) && j < k + 1);
    }
    if has_held(script, i, k + 1) && !held_in(script, i, k) {
        let j = choose|j: nat| j < k + 1 && #[trigger] held_in(script, i, j);
        assert(held_in(script, i, j) && j < k);
    }
}

proof fn lemma_after_rounds(
    conditionals: Seq<(Seq<char>, ConditionalView)>,
    script: spec_fn(nat) -> Seq<Option<bool>>,
    n: nat,
)
    ensures
        after_rounds(conditionals, script, n).len() == conditionals.len(),
        forall|i: int|
            0 <= i < conditionals.len() ==> #[trigger] after_rounds(conditionals, script, n)[i]
                == (if has_held(script, i, n) {
                (conditionals[i].0, ConditionalView::spent())
            } else {
                conditionals[i]
            }),
    decreases n,
{
    if n > 0 {
        let k = (n - 1) as nat;
        lemma_after_rounds(conditionals, script, k);
        assert forall|i: int| 0 <= i < conditionals.len() implies #[trigger] after_rounds(
            conditionals,
            script,
            n,
        )[i] == (if has_held(script, i, n) {
            (conditionals[i].0, ConditionalView::spent())
        } else {
            conditionals[i]
        }) by {
            lemma_has_held_next(script, i, k);
            assert(after_rounds(conditionals, script, k)[i].0 == conditionals[i].0);
        }
    }
}

proof fn lemma_first_held(script: spec_fn(nat) -> Seq<Option<bool>>, k: nat, m: int)
    requires
        0 <= m,
    ensures
        first_held(script, k, m).no_duplicates(),
        forall|i: int| #[trigger]
            first_held(script, k, m).contains(i) <==> 0 <= i < m && held_in(script, i, k)
                && !has_held(script, i, k),
    decreases m,
{
    if m > 0 {
        lemma_first_held(script, k, m - 1);
        let front = first_held(script, k, m - 1);
        if held_in(script, m - 1, k) && !has_held(script, m - 1, k) {
            lemma_contains_push(front, m - 1);
            assert(!front.contains(m - 1));
        }
    }
}

proof fn lemma_contains_push(s: Seq<int>, x: int)
    ensures
        forall|i: int| #[trigger] s.push(x).contains(i) <==> s.contains(i) || i == x,
{
    assert forall|i: int| #[trigger] s.push(x).contains(i) <==> s.contains(i) || i == x by {
        if s.contains(i) {
            assert(s.push(x)[s.index_of(i)] == i);
        }
        if i == x {
            assert(s.push(x)[s.len() as int] == i);
        }
        if s.push(x).contains(i) && i != x {
            assert(s[s.push(x).index_of(i)] == i);
        }
    }
}

proof fn lemma_contains_add(s: Seq<int>, t: Seq<int>)
    ensures
        forall|i: int| #[trigger] (s + t).contains(i) <==> s.contains(i) || t.contains(i),
{
    assert forall|i: int| #[trigger] (s + t).contains(i) <==> s.contains(i) || t.contains(i) by {
        if s.contains(i) {
            assert((s + t)[s.index_of(i)] == i);
        }
        if t.contains(i) {
            assert((s + t)[s.len() + t.index_of(i)] == i);
        }
        if (s + t).contains(i) {
            let j = (s + t).index_of(i);
            if j < s.len() {
                assert(s[j] == i);
            } else {
                assert(t[j - s.len()] == i);
            }
        }
    }
}

proof fn lemma_held_order(count: int, script: spec_fn(nat) -> Seq<Option<bool>>, n: nat)
    requires
        0 <= count,
    ensures
        held_order(count, script, n).no_duplicates(),
        forall|i: int| #[trigger]
            held_order(count, script, n).contains(i) <==> 0 <= i < count && has_held(script, i, n),
    decreases n,
{
    if n > 0 {
        let k = (n - 1) as nat;
        lemma_held_order(count, script, k);
        lemma_first_held(script, k, count);
        let front = held_order(count, script, k);
        let back = first_held(script, k, count);
        let all = front + back;
        lemma_contains_add(front, back);
        assert forall|i: int| #[trigger] all.contains(i) <==> 0 <= i < count && has_held(
            script,
            i,
            n,
        ) by {
            lemma_has_held_next(script, i, k);
        }
        assert forall|i: int, j: int|
            0 <= i < all.len() && 0 <= j < all.len() && i != j implies all[i] != all[j] by {
            if i < front.len() && j >= front.len() {
                assert(front.contains(front[i]));
                assert(back.contains(back[j - front.len()]));
            }
            if j < front.len() && i >= front.len() {
                assert(front.contains(front[j]));
                assert(back.contains(back[i - front.len()]));
            }
        }
    }
}

proof fn lemma_round_in_order(
    config: ConfigView,
    conditionals: Seq<(Seq<char>, ConditionalView)>,
    script: spec_fn(nat) -> Seq<Option<bool>>,
    k: nat,
    m: int,
)
    requires
        0 <= m <= conditionals.len(),
    ensures
        ({
            let order = held_order(conditionals.len() as int, script, k);
            merged_up_to(
                merged_in_order(config, conditionals, order),
                after_rounds(conditionals, script, k),
                script(k),
                m,
            ) == merged_in_order(config, conditionals, order + first_held(script, k, m))
        }),
    decreases m,
{
    let order = held_order(conditionals.len() as int, script, k);
    let rest = after_rounds(conditionals, script, k);
    if m == 0 {
        assert(order + first_held(script, k, 0) =~= order);
    } else {
        lemma_round_in_order(config, conditionals, script, k, m - 1);
        lemma_after_rounds(conditionals, script, k);
        let so_far = order + first_held(script, k, m - 1);
        if held_in(script, m - 1, k) {
            assert(rest[m - 1].0 == conditionals[m - 1].0);
            if has_held(script, m - 1, k) {
                lemma_held_order(conditionals.len() as int, script, k);
                assert(order.contains(m - 1));
                assert(so_far.len() > 0);
                let before = merged_in_order(config, conditionals, so_far);
                assert(before.template is Some);
                assert(before.merged(ConditionalView::spent()) =~= before);
            } else {
                let all = order + first_held(script, k, m);
                assert(all =~= so_far.push(m - 1));
                assert(all.drop_last() =~= so_far);
            }
        }
    }
}

proof fn lemma_lists_in_order(
    config: ConfigView,
    conditionals: Seq<(Seq<char>, ConditionalView)>,
    order: Seq<int>,
)
    ensures
        ({
            let start = config.template_or_unset();
            let end = merged_in_order(config, conditionals, order).template_or_unset();
            &&& end.includes == extended_by(
                start.includes,
                order.map_values(|i: int| conditionals[i].1.includes),
            )
            &&& end.excludes == extended_by(
                start.excludes,
                order.map_values(|i: int| conditionals[i].1.excludes),
            )
            &&& end.ignores == extended_by(
                start.ignores,
                order.map_values(|i: int| conditionals[i].1.ignores),
            )
        }),
    decreases order.len(),
{
    if order.len() > 0 {
        let front = order.drop_last();
        lemma_lists_in_order(config, conditionals, front);
        assert(order.map_values(|i: int| conditionals[i].1.includes).drop_last()
            =~= front.map_values(|i: int| conditionals[i].1.includes));
        assert(order.map_values(|i: int| conditionals[i].1.excludes).drop_last()
            =~= front.map_values(|i: int| conditionals[i].1.excludes));
        assert(order.map_values(|i: int| conditionals[i].1.ignores).drop_last()
            =~= front.map_values(|i: int| conditionals[i].1.ignores));
    }
}

/// After any number of rounds the configuration is the one at the start, with the settings of
/// every condition that held in some round merged into it, each once and in the order in which
/// they first held: each list is the list at the start, followed by theirs.
pub proof fn law_rounds_merge_what_held(
    config: ConfigView,
    conditionals: Seq<(Seq<char>, ConditionalView)>,
    script: spec_fn(nat) -> Seq<Option<bool>>,
    n: nat,
)
    ensures
        ({
            let order = held_order(conditionals.len() as int, script, n);
            let start = config.template_or_unset();
            let after = config_after_rounds(config, conditionals, script, n);
            let end = after.template_or_unset();
            &&& order.no_duplicates()
            &&& forall|i: int| #[trigger]
                order.contains(i) <==> 0 <= i < conditionals.len() && has_held(script, i, n)
            &&& after == merged_in_order(config, conditionals, order)
            &&& end.includes == extended_by(
                start.includes,
                order.map_values(|i: int| conditionals[i].1.includes),
            )
            &&& end.excludes == extended_by(
                start.excludes,
                order.map_values(|i: int| conditionals[i].1.excludes),
            )
            &&& end.ignores == extended_by(
                start.ignores,
                order.map_values(|i: int| conditionals[i].1.ignores),
            )
        }),
    decreases n,
{
    let count = conditionals.len() as int;
    lemma_held_order(count, script, n);
    lemma_lists_in_order(config, conditionals, held_order(count, script, n));
    if n > 0 {
        let k = (n - 1) as nat;
        law_rounds_merge_what_held(config, conditionals, script, k);
        lemma_after_rounds(conditionals, script, k);
        lemma_round_in_order(config, conditionals, script, k, count);
    }
}

/// A condition that held in the last round is merged.
pub proof fn law_what_held_last_is_merged(
    conditionals: Seq<(Seq<char>, ConditionalView)>,
    script: spec_fn(nat) -> Seq<Option<bool>>,
    n: nat,
    i: int,
)
    requires
        n > 0,
        0 <= i < conditionals.len(),
        held_in(script, i, (n - 1) as nat),
    ensures
        held_order(conditionals.len() as int, script, n).contains(i),
{
    lemma_held_order(conditionals.len() as int, script, n);
    assert(has_held(script, i, n));
}

} // verus!
