//! Adapters bind selectors to the test frameworks that can run them.
pub mod ruby_minitest;
pub mod ruby_rspec;

use crate::environment::{Environment, EnvironmentView};
use crate::selector_match::SelectorMatch;
use crate::test_selector::{SelectorView, TestSelector};
use vstd::prelude::*;
use vstd::std_specs::convert::TryFromSpecImpl;

pub use self::ruby_minitest::RubyMinitest;
pub use self::ruby_rspec::RubyRspec;

verus! {

/// The interface a test adapter must implement to be used by the test runner.
pub trait TestAdapter {
    /// The verdict of this adapter on a selector.
    spec fn verdict(&self, env: EnvironmentView, selector: SelectorView) -> SelectorMatch;

    /// The shell commands of this adapter for the selectors it has taken, in
    /// the order in which they are to run.
    spec fn commands(&self, env: EnvironmentView, selectors: Seq<SelectorView>) -> Seq<Seq<char>>;

    /// Says whether, and how, the adapter can handle the given selector.
    fn selector_matches(&self, env: &Environment, selector: &TestSelector) -> (r: SelectorMatch)
        ensures
            r == self.verdict(env@, selector@),
    ;

    /// Collect all of the shell commands that should be run for the given
    /// selectors. `None` stands for no command at all.
    fn collect_commands(&self, env: &Environment, selectors: &[&TestSelector]) -> (r: Option<
        Vec<String>,
    >)
        ensures
            commands_view(r) == self.commands(env@, selectors.deep_view()),
            r matches Some(commands) ==> commands.len() > 0,
    ;

    /// An adapter that has taken no selector gives no command.
    proof fn lemma_nothing_taken_nothing_run(&self, env: EnvironmentView)
        ensures
            self.commands(env, Seq::empty()) == Seq::<Seq<char>>::empty(),
    ;
}

/// The commands that an adapter handed back, as a mathematical value.
pub open spec fn commands_view(r: Option<Vec<String>>) -> Seq<Seq<char>> {
    match r {
        Some(commands) => commands.deep_view(),
        None => Seq::empty(),
    }
}

/// `None` for an empty list of commands, and the list itself otherwise.
pub fn none_if_empty(commands: Vec<String>) -> (r: Option<Vec<String>>)
    ensures
        commands_view(r) == commands.deep_view(),
        r is Some <==> commands.len() > 0,
{
    if commands.len() == 0 {
        proof {
            assert(commands.deep_view() =~= Seq::<Seq<char>>::empty());
        }
        None
    } else {
        Some(commands)
    }
}

/// The adapters that there are, each under its key.
#[derive(Debug, PartialEq, Eq, Clone, Copy, Structural)]
pub enum Adapter {
    RubyRspec(RubyRspec),
    RubyMinitest(RubyMinitest),
}

/// No adapter has the key that was asked for.
#[derive(Debug, PartialEq, Eq, Clone, Copy, Structural)]
pub struct UnknownAdapter {}

impl UnknownAdapter {
    /// A sentence that names the error.
    pub fn message(&self) -> (r: String)
        ensures
            r@ == "Unknown adapter"@,
    {
        "Unknown adapter".to_owned()
    }
}

/// All adapters, in the order in which they are asked.
pub open spec fn all_spec() -> Seq<Adapter> {
    seq![Adapter::RubyRspec(RubyRspec {  }), Adapter::RubyMinitest(RubyMinitest {  })]
}

/// Get a list of all adapters.
pub fn all() -> (r: Vec<Adapter>)
    ensures
        r@ == all_spec(),
{
    let r = vec![Adapter::RubyRspec(RubyRspec::new()), Adapter::RubyMinitest(RubyMinitest::new())];
    proof {
        assert(r@ =~= all_spec());
    }
    r
}

/// The adapter that has the key `name`.
pub open spec fn adapter_for(name: Seq<char>) -> Result<Adapter, UnknownAdapter> {
    if name == "ruby_rspec"@ {
        Ok(Adapter::RubyRspec(RubyRspec {  }))
    } else if name == "ruby_minitest"@ {
        Ok(Adapter::RubyMinitest(RubyMinitest {  }))
    } else {
        Err(UnknownAdapter {  })
    }
}

impl Adapter {
    /// Fetch an adapter for the given name.
    pub fn from_key(name: &str) -> (r: Result<Adapter, UnknownAdapter>)
        ensures
            r == adapter_for(name@),
    {
        let wanted = name.to_owned();
        if wanted == "ruby_rspec".to_owned() {
            Ok(Adapter::RubyRspec(RubyRspec::new()))
        } else if wanted == "ruby_minitest".to_owned() {
            Ok(Adapter::RubyMinitest(RubyMinitest::new()))
        } else {
            Err(UnknownAdapter {  })
        }
    }

    /// The key of the adapter.
    pub open spec fn key_spec(&self) -> Seq<char> {
        match *self {
            Adapter::RubyRspec(_) => "ruby_rspec"@,
            Adapter::RubyMinitest(_) => "ruby_minitest"@,
        }
    }

    /// The key of the adapter.
    pub fn key(&self) -> (r: &'static str)
        ensures
            r@ == self.key_spec(),
    {
        match self {
            Adapter::RubyRspec(_) => "ruby_rspec",
            Adapter::RubyMinitest(_) => "ruby_minitest",
        }
    }
}

/// Each adapter is found again under its own key.
pub proof fn lemma_key_finds_its_adapter(adapter: Adapter)
    ensures
        adapter_for(adapter.key_spec()) == Ok::<Adapter, UnknownAdapter>(adapter),
{
    reveal_strlit("ruby_rspec");
    reveal_strlit("ruby_minitest");
    assert("ruby_rspec"@.len() != "ruby_minitest"@.len());
}

/// Every adapter in the list of all adapters is found under its key, and every
/// key that names an adapter names one in the list.
pub proof fn lemma_all_adapters_have_keys(name: Seq<char>)
    ensures
        adapter_for(name) matches Ok(adapter) ==> all_spec().contains(adapter) && adapter.key_spec()
            == name,
{
    if let Ok(adapter) = adapter_for(name) {
        if name == "ruby_rspec"@ {
            assert(all_spec()[0] == adapter);
        } else {
            assert(all_spec()[1] == adapter);
        }
    }
}

impl TryFrom<&str> for Adapter {
    type Error = UnknownAdapter;

    /// Fetch an adapter for the given name.
    fn try_from(name: &str) -> (r: Result<Self, UnknownAdapter>)
        ensures
            r == adapter_for(name@),
    {
        Adapter::from_key(name)
    }
}

impl TryFromSpecImpl<&str> for Adapter {
    open spec fn obeys_try_from_spec() -> bool {
        true
    }

    open spec fn try_from_spec(name: &str) -> Result<Self, UnknownAdapter> {
        adapter_for(name@)
    }
}

impl TestAdapter for Adapter {
    open spec fn verdict(&self, env: EnvironmentView, selector: SelectorView) -> SelectorMatch {
        match *self {
            Adapter::RubyRspec(adapter) => adapter.verdict(env, selector),
            Adapter::RubyMinitest(adapter) => adapter.verdict(env, selector),
        }
    }

    open spec fn commands(&self, env: EnvironmentView, selectors: Seq<SelectorView>) -> Seq<
        Seq<char>,
    > {
        match *self {
            Adapter::RubyRspec(adapter) => adapter.commands(env, selectors),
            Adapter::RubyMinitest(adapter) => adapter.commands(env, selectors),
        }
    }

    proof fn lemma_nothing_taken_nothing_run(&self, env: EnvironmentView) {
        match *self {
            Adapter::RubyRspec(adapter) => adapter.lemma_nothing_taken_nothing_run(env),
            Adapter::RubyMinitest(adapter) => adapter.lemma_nothing_taken_nothing_run(env),
        }
    }

    fn selector_matches(&self, env: &Environment, selector: &TestSelector) -> (r: SelectorMatch) {
        match self {
            Adapter::RubyRspec(adapter) => adapter.selector_matches(env, selector),
            Adapter::RubyMinitest(adapter) => adapter.selector_matches(env, selector),
        }
    }

    fn collect_commands(&self, env: &Environment, selectors: &[&TestSelector]) -> (r: Option<
        Vec<String>,
    >) {
        match self {
            Adapter::RubyRspec(adapter) => adapter.collect_commands(env, selectors),
            Adapter::RubyMinitest(adapter) => adapter.collect_commands(env, selectors),
        }
    }
}

} // verus!
