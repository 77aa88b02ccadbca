//! The configuration of a project, and where its file is looked for.
use crate::environment::{Environment, EnvironmentView};
use crate::text::{chars_of, ends_with, ends_with_at};
use vstd::prelude::*;

verus! {

/// The patterns that configure one adapter.
#[derive(Debug, Clone, PartialEq, Eq)]
pub struct AdapterConfig {
    pub file_patterns: Vec<String>,
    pub test_patterns: Vec<String>,
    pub namespace_patterns: Vec<String>,
}

impl AdapterConfig {
    /// A configuration without any pattern.
    pub fn empty() -> (r: Self)
        ensures
            r.file_patterns@.len() == 0,
            r.test_patterns@.len() == 0,
            r.namespace_patterns@.len() == 0,
    {
        AdapterConfig {
            file_patterns: Vec::new(),
            test_patterns: Vec::new(),
            namespace_patterns: Vec::new(),
        }
    }
}

impl Default for AdapterConfig {
    fn default() -> (r: Self)
        ensures
            r.file_patterns@.len() == 0,
            r.test_patterns@.len() == 0,
            r.namespace_patterns@.len() == 0,
    {
        AdapterConfig::empty()
    }
}

/// The configuration of every adapter.
#[derive(Debug, Clone, PartialEq, Eq)]
pub struct Config {
    ruby_rspec: AdapterConfig,
    ruby_minitest: AdapterConfig,
    cargo_test: AdapterConfig,
}

/// The file pattern with which Minitest is configured by default.
pub open spec fn minitest_file_pattern() -> Seq<char> {
    "(.*(^|/)(spec|test)/(test_.+|.+_test|.+_spec))\\.rb$"@
}

/// The test pattern with which Minitest is configured by default.
pub open spec fn minitest_test_pattern() -> Seq<char> {
    "\\s*(test|it)(\\(| )(\"|')(?P<name>.*)(\"|')"@
}

impl Config {
    /// Puts a configuration together from those of its adapters.
    pub fn new(
        ruby_rspec: AdapterConfig,
        ruby_minitest: AdapterConfig,
        cargo_test: AdapterConfig,
    ) -> (r: Self)
        ensures
            *r.ruby_rspec() == ruby_rspec,
            *r.ruby_minitest() == ruby_minitest,
            *r.cargo_test() == cargo_test,
    {
        Config { ruby_rspec, ruby_minitest, cargo_test }
    }

    /// The configuration of the RSpec adapter.
    pub closed spec fn spec_ruby_rspec(&self) -> &AdapterConfig {
        &self.ruby_rspec
    }

    /// The configuration of the Minitest adapter.
    pub closed spec fn spec_ruby_minitest(&self) -> &AdapterConfig {
        &self.ruby_minitest
    }

    /// The configuration of the adapter for `cargo test`.
    pub closed spec fn spec_cargo_test(&self) -> &AdapterConfig {
        &self.cargo_test
    }

    /// The configuration of the RSpec adapter.
    #[verifier::when_used_as_spec(spec_ruby_rspec)]
    pub fn ruby_rspec(&self) -> (r: &AdapterConfig)
        ensures
            r == self.spec_ruby_rspec(),
    {
        &self.ruby_rspec
    }

    /// The configuration of the Minitest adapter.
    #[verifier::when_used_as_spec(spec_ruby_minitest)]
    pub fn ruby_minitest(&self) -> (r: &AdapterConfig)
        ensures
            r == self.spec_ruby_minitest(),
    {
        &self.ruby_minitest
    }

    /// The configuration of the adapter for `cargo test`.
    #[verifier::when_used_as_spec(spec_cargo_test)]
    pub fn cargo_test(&self) -> (r: &AdapterConfig)
        ensures
            r == self.spec_cargo_test(),
    {
        &self.cargo_test
    }

    /// The configuration that holds where a project gives none: Minitest has
    /// one file pattern and one test pattern, and nothing else is set.
    pub fn default() -> (r: Self)
        ensures
            r.ruby_minitest().file_patterns.deep_view() == seq![minitest_file_pattern()],
            r.ruby_minitest().test_patterns.deep_view() == seq![minitest_test_pattern()],
            r.ruby_minitest().namespace_patterns@.len() == 0,
            r.ruby_rspec().file_patterns@.len() == 0,
            r.ruby_rspec().test_patterns@.len() == 0,
            r.ruby_rspec().namespace_patterns@.len() == 0,
            r.cargo_test().file_patterns@.len() == 0,
            r.cargo_test().test_patterns@.len() == 0,
            r.cargo_test().namespace_patterns@.len() == 0,
    {
        let file_patterns = vec!["(.*(^|/)(spec|test)/(test_.+|.+_test|.+_spec))\\.rb$".to_owned()];
        let test_patterns = vec!["\\s*(test|it)(\\(| )(\"|')(?P<name>.*)(\"|')".to_owned()];
        proof {
            assert(file_patterns.deep_view() =~= seq![minitest_file_pattern()]);
            assert(test_patterns.deep_view() =~= seq![minitest_test_pattern()]);
        }
        let ruby_minitest = AdapterConfig {
            file_patterns,
            test_patterns,
            namespace_patterns: Vec::new(),
        };
        Config::new(AdapterConfig::empty(), ruby_minitest, AdapterConfig::empty())
    }

    /// The path of the configuration file of the project in `cwd`, where it
    /// has one.
    pub fn find_in_dir(env: &Environment, cwd: &str) -> (r: Option<String>)
        ensures
            match r {
                Some(path) => first_existing(env@, cwd@, config_file_names_spec()) == Some(path@),
                None => first_existing(env@, cwd@, config_file_names_spec()) is None,
            },
    {
        let names = config_file_names();
        find_project_file(env, cwd, names.as_slice())
    }
}

/// The names under which a project may keep its configuration, in the order
/// in which they are tried.
pub open spec fn config_file_names_spec() -> Seq<Seq<char>> {
    seq!["ttest.toml"@, "_ttest.toml"@, ".ttest.toml"@]
}

/// The names under which a project may keep its configuration.
pub fn config_file_names() -> (r: Vec<&'static str>)
    ensures
        r.deep_view() == config_file_names_spec(),
{
    let r = vec!["ttest.toml", "_ttest.toml", ".ttest.toml"];
    proof {
        assert(r.deep_view() =~= config_file_names_spec());
    }
    r
}

/// The paths at which the configuration of the project in `cwd` may stand, in
/// the order in which they are tried.
pub open spec fn config_paths_spec(cwd: Seq<char>, names: Seq<Seq<char>>) -> Seq<Seq<char>>
    decreases names.len(),
{
    if names.len() == 0 {
        Seq::empty()
    } else {
        config_paths_spec(cwd, names.drop_last()).push(joined_path(cwd, names.last()))
    }
}

/// The paths at which the environment is to be probed before the
/// configuration of the project in `cwd` is looked for.
pub fn config_paths(cwd: &str) -> (r: Vec<String>)
    ensures
        r.deep_view() == config_paths_spec(cwd@, config_file_names_spec()),
{
    let names = config_file_names();
    let ghost all = names.deep_view();
    let mut out: Vec<String> = Vec::new();
    let mut i: usize = 0;
    proof {
        assert(all.subrange(0, 0) =~= Seq::<Seq<char>>::empty());
        assert(out.deep_view() =~= Seq::<Seq<char>>::empty());
    }
    while i < names.len()
        invariant
            i <= names.len(),
            all == names.deep_view(),
            out.deep_view() == config_paths_spec(cwd@, all.subrange(0, i as int)),
        decreases names.len() - i,
    {
        let ghost before = out.deep_view();
        proof {
            let upto = all.subrange(0, i + 1);
            assert(upto.drop_last() =~= all.subrange(0, i as int));
            assert(upto.last() == names@[i as int]@);
        }
        let path = join_path(cwd, names[i]);
        out.push(path);
        proof {
            assert(out.deep_view() =~= before.push(path@));
        }
        i += 1;
    }
    proof {
        assert(all.subrange(0, i as int) =~= all);
    }
    out
}

/// The path of the file `name` in the directory `dir`.
pub open spec fn joined_path(dir: Seq<char>, name: Seq<char>) -> Seq<char> {
    if dir.len() == 0 || ends_with(dir, "/"@) {
        dir + name
    } else {
        dir + "/"@ + name
    }
}

/// The path of the first of `names` that exists in `dir`.
pub open spec fn first_existing(
    env: EnvironmentView,
    dir: Seq<char>,
    names: Seq<Seq<char>>,
) -> Option<Seq<char>>
    decreases names.len(),
{
    if names.len() == 0 {
        None
    } else if env.contains_key(joined_path(dir, names.first())) {
        Some(joined_path(dir, names.first()))
    } else {
        first_existing(env, dir, names.drop_first())
    }
}

/// The path of the file `name` in the directory `dir`.
pub fn join_path(dir: &str, name: &str) -> (r: String)
    ensures
        r@ == joined_path(dir@, name@),
{
    let chars = chars_of(dir);
    let slash = chars_of("/");
    let mut out = dir.to_owned();
    proof {
        assert(chars@.subrange(0, chars@.len() as int) =~= chars@);
    }
    if chars.len() > 0 && !ends_with_at(&chars, 0, chars.len(), &slash) {
        out.append("/");
    }
    out.append(name);
    out
}

/// Finds the first of `names` that exists in `dir`, and gives its path.
pub fn find_project_file(env: &Environment, dir: &str, names: &[&str]) -> (r: Option<String>)
    ensures
        match r {
            Some(path) => first_existing(env@, dir@, names.deep_view()) == Some(path@),
            None => first_existing(env@, dir@, names.deep_view()) is None,
        },
{
    let ghost all = names.deep_view();
    let mut i: usize = 0;
    proof {
        assert(all.subrange(0, all.len() as int) =~= all);
    }
    while i < names.len()
        invariant
            i <= names.len(),
            all == names.deep_view(),
            first_existing(env@, dir@, all) == first_existing(
                env@,
                dir@,
                all.subrange(i as int, all.len() as int),
            ),
        decreases names.len() - i,
    {
        let ghost rest = all.subrange(i as int, all.len() as int);
        proof {
            assert(rest.first() == names@[i as int]@);
            assert(rest.drop_first() =~= all.subrange(i + 1, all.len() as int));
        }
        let path = join_path(dir, names[i]);
        if env.file_exists(path.as_str()) {
            return Some(path);
        }
        i += 1;
    }
    None
}

} // verus!
