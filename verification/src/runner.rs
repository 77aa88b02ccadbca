//! The dispatch of selectors to adapters.
use crate::adapter::ruby_minitest::{
    minitest_command_spec, minitest_commands, minitest_in_gemfile, name_command_spec,
};
use crate::adapter::ruby_rspec::{
    rspec_args, rspec_command_spec, rspec_example_commands, rspec_in_gemfile,
};
use crate::adapter::{all, all_spec, Adapter, TestAdapter};
use crate::environment::{Environment, EnvironmentView};
use crate::selector_match::SelectorMatch;
use crate::test_selector::{SelectorView, TestSelector};
use vstd::prelude::*;

verus! {

/// The selectors that `adapter` takes from `selectors`: those it matches, in
/// their order.
pub open spec fn taken_by<A: TestAdapter>(
    adapter: A,
    env: EnvironmentView,
    selectors: Seq<SelectorView>,
) -> Seq<SelectorView>
    decreases selectors.len(),
{
    if selectors.len() == 0 {
        Seq::empty()
    } else {
        let before = taken_by(adapter, env, selectors.drop_last());
        if adapter.verdict(env, selectors.last()) != SelectorMatch::NoMatch {
            before.push(selectors.last())
        } else {
            before
        }
    }
}

/// The selectors that `adapter` leaves of `selectors` for the adapters after
/// it: those it does not match exclusively, in their order.
pub open spec fn left_by<A: TestAdapter>(
    adapter: A,
    env: EnvironmentView,
    selectors: Seq<SelectorView>,
) -> Seq<SelectorView>
    decreases selectors.len(),
{
    if selectors.len() == 0 {
        Seq::empty()
    } else {
        let before = left_by(adapter, env, selectors.drop_last());
        if adapter.verdict(env, selectors.last()) != SelectorMatch::Exclusive {
            before.push(selectors.last())
        } else {
            before
        }
    }
}

/// The commands for `selectors` when `adapters` are asked in order: each
/// adapter gives the commands for what it takes, and hands on what it leaves.
pub open spec fn dispatch<A: TestAdapter>(
    adapters: Seq<A>,
    env: EnvironmentView,
    selectors: Seq<SelectorView>,
) -> Seq<Seq<char>>
    decreases adapters.len(),
{
    if adapters.len() == 0 {
        Seq::empty()
    } else {
        let first = adapters.first();
        first.commands(env, taken_by(first, env, selectors)) + dispatch(
            adapters.drop_first(),
            env,
            left_by(first, env, selectors),
        )
    }
}

/// Filters the selectors which are supported by the given adapter, taking care
/// to remove any exclusive selectors from the list.
pub fn take_selectors<A: TestAdapter>(
    env: &Environment,
    selectors: &mut Vec<TestSelector>,
    adapter: &A,
) -> (r: Vec<TestSelector>)
    ensures
        r.deep_view() == taken_by(*adapter, env@, old(selectors).deep_view()),
        final(selectors).deep_view() == left_by(*adapter, env@, old(selectors).deep_view()),
{
    let mut taken: Vec<TestSelector> = Vec::new();
    let mut left: Vec<TestSelector> = Vec::new();
    let ghost all = selectors.deep_view();
    let mut i: usize = 0;
    proof {
        assert(all.subrange(0, 0) =~= Seq::<SelectorView>::empty());
        assert(taken.deep_view() =~= Seq::<SelectorView>::empty());
        assert(left.deep_view() =~= Seq::<SelectorView>::empty());
    }
    while i < selectors.len()
        invariant
            i <= selectors.len(),
            all == selectors.deep_view(),
            taken.deep_view() == taken_by(*adapter, env@, all.subrange(0, i as int)),
            left.deep_view() == left_by(*adapter, env@, all.subrange(0, i as int)),
        decreases selectors.len() - i,
    {
        let ghost taken_before = taken.deep_view();
        let ghost left_before = left.deep_view();
        proof {
            let upto = all.subrange(0, i + 1);
            assert(upto.drop_last() =~= all.subrange(0, i as int));
            assert(upto.last() == selectors@[i as int]@);
        }
        match adapter.selector_matches(env, &selectors[i]) {
            SelectorMatch::NoMatch => {
                let kept = selectors[i].clone();
                left.push(kept);
                proof {
                    assert(left.deep_view() =~= left_before.push(kept@));
                }
            },
            SelectorMatch::Shared => {
                let copy = selectors[i].clone();
                let kept = selectors[i].clone();
                taken.push(copy);
                left.push(kept);
                proof {
                    assert(taken.deep_view() =~= taken_before.push(copy@));
                    assert(left.deep_view() =~= left_before.push(kept@));
                }
            },
            SelectorMatch::Exclusive => {
                let copy = selectors[i].clone();
                taken.push(copy);
                proof {
                    assert(taken.deep_view() =~= taken_before.push(copy@));
                }
            },
        }
        i += 1;
    }
    proof {
        assert(all.subrange(0, i as int) =~= all);
    }
    *selectors = left;
    taken
}

/// References to the items of `selectors`, in order.
fn references(selectors: &Vec<TestSelector>) -> (r: Vec<&TestSelector>)
    ensures
        r.deep_view() == selectors.deep_view(),
{
    let mut out: Vec<&TestSelector> = Vec::new();
    let mut i: usize = 0;
    while i < selectors.len()
        invariant
            i <= selectors.len(),
            out.len() == i,
            forall|j: int| 0 <= j < i ==> (#[trigger] out@[j])@ == selectors@[j]@,
        decreases selectors.len() - i,
    {
        out.push(&selectors[i]);
        i += 1;
    }
    proof {
        assert(out.deep_view() =~= selectors.deep_view());
    }
    out
}

/// Collect all of the shell commands that should be run for the given
/// selectors: every adapter is asked in turn, in the order of `all`.
pub fn collect_commands(env: &Environment, selectors: &[TestSelector]) -> (r: Vec<String>)
    ensures
        r.deep_view() == dispatch(all_spec(), env@, selectors.deep_view()),
{
    let adapters = all();
    let mut remaining: Vec<TestSelector> = Vec::new();
    let mut k: usize = 0;
    while k < selectors.len()
        invariant
            k <= selectors.len(),
            remaining.deep_view() == selectors.deep_view().subrange(0, k as int),
        decreases selectors.len() - k,
    {
        let ghost before = remaining.deep_view();
        let copy = selectors[k].clone();
        remaining.push(copy);
        proof {
            assert(remaining.deep_view() =~= before.push(copy@));
            assert(selectors.deep_view().subrange(0, k + 1) =~= selectors.deep_view().subrange(
                0,
                k as int,
            ).push(selectors@[k as int]@));
        }
        k += 1;
    }
    proof {
        assert(selectors.deep_view().subrange(0, k as int) =~= selectors.deep_view());
    }
    let mut out: Vec<String> = Vec::new();
    let ghost whole = dispatch(adapters@, env@, selectors.deep_view());
    let mut i: usize = 0;
    proof {
        assert(adapters@.subrange(0, adapters@.len() as int) =~= adapters@);
        assert(out.deep_view() =~= Seq::<Seq<char>>::empty());
        assert(out.deep_view() + whole =~= whole);
    }
    while i < adapters.len()
        invariant
            i <= adapters.len(),
            whole == out.deep_view() + dispatch(
                adapters@.subrange(i as int, adapters@.len() as int),
                env@,
                remaining.deep_view(),
            ),
        decreases adapters.len() - i,
    {
        let ghost rest = adapters@.subrange(i as int, adapters@.len() as int);
        let ghost before = out.deep_view();
        let ghost offered = remaining.deep_view();
        proof {
            assert(rest.first() == adapters@[i as int]);
            assert(rest.drop_first() =~= adapters@.subrange(i + 1, adapters@.len() as int));
        }
        let matched = take_selectors(env, &mut remaining, &adapters[i]);
        let matched = references(&matched);
        match adapters[i].collect_commands(env, matched.as_slice()) {
            Some(commands) => {
                let mut commands = commands;
                let ghost mine = commands.deep_view();
                out.append(&mut commands);
                proof {
                    assert(out.deep_view() =~= before + mine);
                }
            },
            None => {
                proof {
                    assert(out.deep_view() + Seq::<Seq<char>>::empty() =~= out.deep_view());
                }
            },
        }
        proof {
            let mine = adapters@[i as int].commands(
                env@,
                taken_by(adapters@[i as int], env@, offered),
            );
            assert(out.deep_view() == before + mine);
            let later = dispatch(rest.drop_first(), env@, remaining.deep_view());
            assert((before + mine) + later =~= before + (mine + later));
        }
        i += 1;
    }
    proof {
        assert(adapters@.subrange(i as int, adapters@.len() as int) =~= Seq::<Adapter>::empty());
        assert(out.deep_view() + Seq::<Seq<char>>::empty() =~= out.deep_view());
    }
    out
}

/// What an adapter takes is part of what it was offered, and it matches each
/// selector that it takes.
pub proof fn lemma_taken_is_matched<A: TestAdapter>(
    adapter: A,
    env: EnvironmentView,
    selectors: Seq<SelectorView>,
    selector: SelectorView,
)
    requires
        taken_by(adapter, env, selectors).contains(selector),
    ensures
        selectors.contains(selector),
        adapter.verdict(env, selector) != SelectorMatch::NoMatch,
    decreases selectors.len(),
{
    if selectors.len() > 0 {
        let before = taken_by(adapter, env, selectors.drop_last());
        let taken = taken_by(adapter, env, selectors);
        let i = choose|i: int| 0 <= i < taken.len() && taken[i] == selector;
        if i < before.len() {
            assert(before[i] == selector);
            lemma_taken_is_matched(adapter, env, selectors.drop_last(), selector);
            let j = choose|j: int|
                0 <= j < selectors.drop_last().len() && selectors.drop_last()[j] == selector;
            assert(selectors[j] == selector);
        } else {
            assert(selectors[selectors.len() - 1] == selector);
        }
    }
}

/// What an adapter leaves is part of what it was offered, and it claims none
/// of it exclusively.
pub proof fn lemma_left_is_unclaimed<A: TestAdapter>(
    adapter: A,
    env: EnvironmentView,
    selectors: Seq<SelectorView>,
    selector: SelectorView,
)
    requires
        left_by(adapter, env, selectors).contains(selector),
    ensures
        selectors.contains(selector),
        adapter.verdict(env, selector) != SelectorMatch::Exclusive,
    decreases selectors.len(),
{
    if selectors.len() > 0 {
        let before = left_by(adapter, env, selectors.drop_last());
        let left = left_by(adapter, env, selectors);
        let i = choose|i: int| 0 <= i < left.len() && left[i] == selector;
        if i < before.len() {
            assert(before[i] == selector);
            lemma_left_is_unclaimed(adapter, env, selectors.drop_last(), selector);
            let j = choose|j: int|
                0 <= j < selectors.drop_last().len() && selectors.drop_last()[j] == selector;
            assert(selectors[j] == selector);
        } else {
            assert(selectors[selectors.len() - 1] == selector);
        }
    }
}

/// With two adapters, the second is offered exactly what the first has left.
pub proof fn lemma_dispatch_of_two<A: TestAdapter>(
    first: A,
    second: A,
    env: EnvironmentView,
    selectors: Seq<SelectorView>,
)
    ensures
        dispatch(seq![first, second], env, selectors) == first.commands(
            env,
            taken_by(first, env, selectors),
        ) + second.commands(env, taken_by(second, env, left_by(first, env, selectors))),
{
    let both = seq![first, second];
    let rest = both.drop_first();
    let left = left_by(first, env, selectors);
    assert(rest =~= seq![second]);
    assert(rest.drop_first() =~= Seq::<A>::empty());
    assert(dispatch(rest.drop_first(), env, left_by(second, env, left)) =~= Seq::<
        Seq<char>,
    >::empty());
    assert(dispatch(rest, env, left) =~= second.commands(env, taken_by(second, env, left)));
}

/// A selector that one adapter claims exclusively is hidden from every
/// adapter after it: it is not among what the first adapter leaves, so a later
/// adapter does not take it, whatever its own verdict on it would be.
pub proof fn lemma_exclusive_claim_hides_selector<A: TestAdapter, B: TestAdapter>(
    first: A,
    second: B,
    env: EnvironmentView,
    selectors: Seq<SelectorView>,
    selector: SelectorView,
)
    requires
        first.verdict(env, selector) == SelectorMatch::Exclusive,
    ensures
        !left_by(first, env, selectors).contains(selector),
        !taken_by(second, env, left_by(first, env, selectors)).contains(selector),
{
    let left = left_by(first, env, selectors);
    if left.contains(selector) {
        lemma_left_is_unclaimed(first, env, selectors, selector);
    }
    if taken_by(second, env, left).contains(selector) {
        lemma_taken_is_matched(second, env, left, selector);
    }
}

/// A selector that two adapters both match as shared reaches both: each gives
/// its commands for it, the first adapter's before the second's.
pub proof fn lemma_shared_selector_reaches_both<A: TestAdapter>(
    first: A,
    second: A,
    env: EnvironmentView,
    selector: SelectorView,
)
    requires
        first.verdict(env, selector) == SelectorMatch::Shared,
        second.verdict(env, selector) == SelectorMatch::Shared,
    ensures
        dispatch(seq![first, second], env, seq![selector]) == first.commands(env, seq![selector])
            + second.commands(env, seq![selector]),
{
    let one = seq![selector];
    assert(one.drop_last() =~= Seq::<SelectorView>::empty());
    assert(taken_by(first, env, one.drop_last()) =~= Seq::<SelectorView>::empty());
    assert(left_by(first, env, one.drop_last()) =~= Seq::<SelectorView>::empty());
    assert(taken_by(second, env, one.drop_last()) =~= Seq::<SelectorView>::empty());
    assert(taken_by(first, env, one) =~= one);
    assert(left_by(first, env, one) =~= one);
    assert(taken_by(second, env, one) =~= one);
    lemma_dispatch_of_two(first, second, env, one);
}

/// A name in a project whose gem list names both RSpec and Minitest gives
/// exactly two commands: first that of RSpec, then that of Minitest.
pub proof fn lemma_shared_name_gives_two_commands(env: EnvironmentView, name: Seq<char>)
    requires
        rspec_in_gemfile(env),
        minitest_in_gemfile(env),
    ensures
        dispatch(all_spec(), env, seq![SelectorView::NameOnly { name }]) == seq![
            rspec_command_spec(env) + " --example "@ + name,
            name_command_spec(minitest_command_spec(env), name),
        ],
{
    let selector = SelectorView::NameOnly { name };
    let one = seq![selector];
    let rspec = all_spec()[0];
    let minitest = all_spec()[1];
    assert(all_spec() =~= seq![rspec, minitest]);
    lemma_shared_selector_reaches_both(rspec, minitest, env, selector);
    assert(one.drop_last() =~= Seq::<SelectorView>::empty());
    assert(one.last() == selector);
    let rspec_named = rspec_example_commands(
        rspec_command_spec(env),
        one,
    );
    assert(rspec_example_commands(
        rspec_command_spec(env),
        one.drop_last(),
    ) =~= Seq::<Seq<char>>::empty());
    assert(rspec_named =~= seq![rspec_command_spec(env) + " --example "@ + name]);
    assert(rspec_args(one.drop_last()) =~= Seq::<Seq<char>>::empty());
    assert(rspec_args(one) =~= Seq::<Seq<char>>::empty());
    assert(minitest_commands(env, one.drop_last()) =~= Seq::<
        Seq<char>,
    >::empty());
    assert(rspec.commands(env, one) =~= seq![rspec_command_spec(env) + " --example "@ + name]);
    assert(minitest.commands(env, one) =~= seq![
        name_command_spec(minitest_command_spec(env), name),
    ]);
    assert(rspec.commands(env, one) + minitest.commands(env, one) =~= seq![
        rspec_command_spec(env) + " --example "@ + name,
        name_command_spec(minitest_command_spec(env), name),
    ]);
}

/// An adapter that matches none of the selectors takes none and leaves all.
pub proof fn lemma_unmatched_adapter_takes_nothing<A: TestAdapter>(
    adapter: A,
    env: EnvironmentView,
    selectors: Seq<SelectorView>,
)
    requires
        forall|i: int|
            0 <= i < selectors.len() ==> adapter.verdict(env, #[trigger] selectors[i])
                == SelectorMatch::NoMatch,
    ensures
        taken_by(adapter, env, selectors) == Seq::<SelectorView>::empty(),
        left_by(adapter, env, selectors) == selectors,
    decreases selectors.len(),
{
    if selectors.len() > 0 {
        let before = selectors.drop_last();
        assert forall|i: int| 0 <= i < before.len() implies adapter.verdict(
            env,
            #[trigger] before[i],
        ) == SelectorMatch::NoMatch by {
            assert(before[i] == selectors[i]);
        }
        lemma_unmatched_adapter_takes_nothing(adapter, env, before);
        assert(selectors.last() == selectors[selectors.len() - 1]);
        assert(before.push(selectors.last()) =~= selectors);
    } else {
        assert(selectors =~= Seq::<SelectorView>::empty());
    }
}

/// An adapter that matches none of the selectors adds no command and hides
/// nothing: the commands are those of the adapters after it.
pub proof fn lemma_unmatched_adapter_adds_nothing<A: TestAdapter>(
    adapter: A,
    later: Seq<A>,
    env: EnvironmentView,
    selectors: Seq<SelectorView>,
)
    requires
        forall|i: int|
            0 <= i < selectors.len() ==> adapter.verdict(env, #[trigger] selectors[i])
                == SelectorMatch::NoMatch,
    ensures
        dispatch(seq![adapter] + later, env, selectors) == dispatch(later, env, selectors),
{
    let adapters = seq![adapter] + later;
    lemma_unmatched_adapter_takes_nothing(adapter, env, selectors);
    adapter.lemma_nothing_taken_nothing_run(env);
    assert(adapters.first() == adapter);
    assert(adapters.drop_first() =~= later);
    assert(Seq::<Seq<char>>::empty() + dispatch(later, env, selectors) =~= dispatch(
        later,
        env,
        selectors,
    ));
}

} // verus!
