//! What has to be known of the project's directory before the selectors are
//! read and dispatched, and why that is enough.
use crate::adapter::ruby_minitest::{find_test_pattern_spec, minitest_commands, minitest_verdict};
use crate::adapter::ruby_rspec::{rspec_commands, rspec_verdict};
use crate::adapter::{all_spec, TestAdapter};
use crate::environment::EnvironmentView;
use crate::runner::{
    dispatch, left_by, lemma_dispatch_of_two, lemma_left_is_unclaimed, lemma_taken_is_matched,
    taken_by,
};
use crate::test_selector::{
    lemma_parse_reads_one_path, parse_all_spec, parse_spec, path_to_probe, probed_path,
    SelectorView,
};
use vstd::prelude::*;

verus! {

/// The paths that decide how `args` are read, in the order of `args`.
pub open spec fn probed_paths(args: Seq<Seq<char>>) -> Seq<Seq<char>>
    decreases args.len(),
{
    if args.len() == 0 {
        Seq::empty()
    } else {
        probed_paths(args.drop_last()).push(probed_path(args.last()))
    }
}

/// The paths at which the environment is to be probed before `args` are read
/// and dispatched: the gem list, the stub of RSpec, and the path that each
/// argument may name.
pub open spec fn probe_paths_spec(args: Seq<Seq<char>>) -> Seq<Seq<char>> {
    seq!["Gemfile"@, "bin/rspec"@] + probed_paths(args)
}

/// The paths at which the environment is to be probed before `args` are read
/// and dispatched.
pub fn probe_paths(args: &Vec<String>) -> (r: Vec<String>)
    ensures
        r.deep_view() == probe_paths_spec(args.deep_view()),
{
    let mut out: Vec<String> = vec!["Gemfile".to_owned(), "bin/rspec".to_owned()];
    let ghost fixed = out.deep_view();
    let ghost all = args.deep_view();
    let mut i: usize = 0;
    proof {
        assert(fixed =~= seq!["Gemfile"@, "bin/rspec"@]);
        assert(all.subrange(0, 0) =~= Seq::<Seq<char>>::empty());
        assert(fixed + Seq::<Seq<char>>::empty() =~= fixed);
    }
    while i < args.len()
        invariant
            i <= args.len(),
            all == args.deep_view(),
            fixed == seq!["Gemfile"@, "bin/rspec"@],
            out.deep_view() == fixed + probed_paths(all.subrange(0, i as int)),
        decreases args.len() - i,
    {
        let ghost before = out.deep_view();
        proof {
            let upto = all.subrange(0, i + 1);
            assert(upto.drop_last() =~= all.subrange(0, i as int));
            assert(upto.last() == args@[i as int]@);
        }
        let path = path_to_probe(args[i].as_str());
        out.push(path);
        proof {
            assert(out.deep_view() =~= before.push(path@));
            assert(before.push(path@) =~= fixed + probed_paths(all.subrange(0, i + 1)));
        }
        i += 1;
    }
    proof {
        assert(all.subrange(0, i as int) =~= all);
    }
    out
}

/// Two environments say the same of `path`: whether it exists, and what the
/// file there holds.
pub open spec fn agree_at(
    first: EnvironmentView,
    second: EnvironmentView,
    path: Seq<char>,
) -> bool {
    first.contains_key(path) == second.contains_key(path) && (first.contains_key(path)
        ==> first[path] == second[path])
}

/// Two environments say the same of each of `paths`.
pub open spec fn agree_on(
    first: EnvironmentView,
    second: EnvironmentView,
    paths: Seq<Seq<char>>,
) -> bool {
    forall|i: int| 0 <= i < paths.len() ==> agree_at(first, second, #[trigger] paths[i])
}

/// Two environments say the same of the file of which `selector` names a
/// line, where it names one.
pub open spec fn agree_on_line(
    first: EnvironmentView,
    second: EnvironmentView,
    selector: SelectorView,
) -> bool {
    selector matches SelectorView::PathWithLineNumber { path, .. } ==> agree_at(
        first,
        second,
        path,
    )
}

/// Two environments say the same of every file of which `selectors` name a
/// line.
pub open spec fn agree_on_lines(
    first: EnvironmentView,
    second: EnvironmentView,
    selectors: Seq<SelectorView>,
) -> bool {
    forall|i: int|
        0 <= i < selectors.len() ==> agree_on_line(first, second, #[trigger] selectors[i])
}

/// An adapter takes and leaves the same selectors in two environments in which
/// its verdicts on them are the same.
pub proof fn lemma_same_verdicts_same_parts<A: TestAdapter>(
    adapter: A,
    first: EnvironmentView,
    second: EnvironmentView,
    selectors: Seq<SelectorView>,
)
    requires
        forall|i: int|
            0 <= i < selectors.len() ==> adapter.verdict(first, #[trigger] selectors[i])
                == adapter.verdict(second, selectors[i]),
    ensures
        taken_by(adapter, first, selectors) == taken_by(adapter, second, selectors),
        left_by(adapter, first, selectors) == left_by(adapter, second, selectors),
    decreases selectors.len(),
{
    if selectors.len() > 0 {
        let before = selectors.drop_last();
        assert forall|i: int| 0 <= i < before.len() implies adapter.verdict(
            first,
            #[trigger] before[i],
        ) == adapter.verdict(second, before[i]) by {
            assert(before[i] == selectors[i]);
        }
        lemma_same_verdicts_same_parts(adapter, first, second, before);
        assert(selectors.last() == selectors[selectors.len() - 1]);
    }
}

/// Minitest gives the same commands in two environments that agree on the gem
/// list and on every file of which a line is named.
pub proof fn lemma_minitest_reads_the_named_files(
    first: EnvironmentView,
    second: EnvironmentView,
    selectors: Seq<SelectorView>,
)
    requires
        agree_at(first, second, "Gemfile"@),
        agree_on_lines(first, second, selectors),
    ensures
        minitest_commands(first, selectors) == minitest_commands(second, selectors),
    decreases selectors.len(),
{
    if selectors.len() > 0 {
        let before = selectors.drop_last();
        assert forall|i: int| 0 <= i < before.len() implies agree_on_line(
            first,
            second,
            #[trigger] before[i],
        ) by {
            assert(before[i] == selectors[i]);
        }
        lemma_minitest_reads_the_named_files(first, second, before);
        let last = selectors[selectors.len() - 1];
        assert(selectors.last() == last);
        assert(agree_on_line(first, second, last));
        if let SelectorView::PathWithLineNumber { path, line } = last {
            assert(agree_at(first, second, path));
            assert(find_test_pattern_spec(first, path, line) == find_test_pattern_spec(
                second,
                path,
                line,
            ));
        }
    }
}

/// The commands for `selectors` are the same in two environments that agree on
/// the gem list, on the stub of RSpec, and on every file of which a line is
/// named.
pub proof fn lemma_dispatch_reads_the_probed_paths(
    first: EnvironmentView,
    second: EnvironmentView,
    selectors: Seq<SelectorView>,
)
    requires
        agree_at(first, second, "Gemfile"@),
        agree_at(first, second, "bin/rspec"@),
        agree_on_lines(first, second, selectors),
    ensures
        dispatch(all_spec(), first, selectors) == dispatch(all_spec(), second, selectors),
{
    let rspec = all_spec()[0];
    let minitest = all_spec()[1];
    assert(all_spec() =~= seq![rspec, minitest]);
    lemma_dispatch_of_two(rspec, minitest, first, selectors);
    lemma_dispatch_of_two(rspec, minitest, second, selectors);
    assert forall|i: int| 0 <= i < selectors.len() implies rspec.verdict(
        first,
        #[trigger] selectors[i],
    ) == rspec.verdict(second, selectors[i]) by {
        assert(rspec_verdict(first, selectors[i]) == rspec_verdict(second, selectors[i]));
    }
    lemma_same_verdicts_same_parts(rspec, first, second, selectors);
    let taken = taken_by(rspec, first, selectors);
    let left = left_by(rspec, first, selectors);
    assert(rspec_commands(first, taken) == rspec_commands(second, taken));
    assert forall|i: int| 0 <= i < left.len() implies minitest.verdict(first, #[trigger] left[i])
        == minitest.verdict(second, left[i]) by {
        assert(minitest_verdict(first, left[i]) == minitest_verdict(second, left[i]));
    }
    lemma_same_verdicts_same_parts(minitest, first, second, left);
    let passed = taken_by(minitest, first, left);
    assert forall|i: int| 0 <= i < passed.len() implies agree_on_line(
        first,
        second,
        #[trigger] passed[i],
    ) by {
        assert(passed.contains(passed[i]));
        lemma_taken_is_matched(minitest, first, left, passed[i]);
        lemma_left_is_unclaimed(rspec, first, selectors, passed[i]);
        let j = choose|j: int| 0 <= j < selectors.len() && selectors[j] == passed[i];
        assert(agree_on_line(first, second, selectors[j]));
    }
    lemma_minitest_reads_the_named_files(first, second, passed);
}

/// The arguments are read alike in two environments that agree on the probed
/// paths, and the selectors that come of them name lines of probed files only.
pub proof fn lemma_parsing_reads_the_probed_paths(
    first: EnvironmentView,
    second: EnvironmentView,
    args: Seq<Seq<char>>,
)
    requires
        agree_on(first, second, probed_paths(args)),
    ensures
        parse_all_spec(first, args) == parse_all_spec(second, args),
        parse_all_spec(first, args) matches Ok(selectors) ==> agree_on_lines(
            first,
            second,
            selectors,
        ),
    decreases args.len(),
{
    if args.len() > 0 {
        let before = args.drop_last();
        let paths = probed_paths(args);
        assert forall|i: int| 0 <= i < probed_paths(before).len() implies agree_at(
            first,
            second,
            #[trigger] probed_paths(before)[i],
        ) by {
            assert(paths[i] == probed_paths(before)[i]);
        }
        lemma_parsing_reads_the_probed_paths(first, second, before);
        assert(paths[paths.len() - 1] == probed_path(args.last()));
        assert(agree_at(first, second, probed_path(args.last())));
        lemma_parse_reads_one_path(first, second, args.last());
        if let Ok(selectors) = parse_all_spec(first, before) {
            if let Ok(selector) = parse_spec(first, args.last()) {
                let all = selectors.push(selector);
                assert forall|i: int| 0 <= i < all.len() implies agree_on_line(
                    first,
                    second,
                    #[trigger] all[i],
                ) by {
                    if i < selectors.len() {
                        assert(agree_on_line(first, second, selectors[i]));
                    }
                }
            }
        }
    }
}

/// The probe is enough: in two environments that agree on the paths that
/// `probe_paths` lists for `args`, the arguments are read alike, and where they
/// can be read they give the same commands.
pub proof fn lemma_probe_decides_the_commands(
    first: EnvironmentView,
    second: EnvironmentView,
    args: Seq<Seq<char>>,
)
    requires
        agree_on(first, second, probe_paths_spec(args)),
    ensures
        parse_all_spec(first, args) == parse_all_spec(second, args),
        parse_all_spec(first, args) matches Ok(selectors) ==> dispatch(
            all_spec(),
            first,
            selectors,
        ) == dispatch(all_spec(), second, selectors),
{
    let paths = probe_paths_spec(args);
    assert(paths[0] == "Gemfile"@);
    assert(paths[1] == "bin/rspec"@);
    assert forall|i: int| 0 <= i < probed_paths(args).len() implies agree_at(
        first,
        second,
        #[trigger] probed_paths(args)[i],
    ) by {
        assert(paths[i + 2] == probed_paths(args)[i]);
    }
    lemma_parsing_reads_the_probed_paths(first, second, args);
    if let Ok(selectors) = parse_all_spec(first, args) {
        lemma_dispatch_reads_the_probed_paths(first, second, selectors);
    }
}

} // verus!
