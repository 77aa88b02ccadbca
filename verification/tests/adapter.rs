use ttest::adapter::{all, Adapter, RubyMinitest, RubyRspec, UnknownAdapter};

#[test]
fn from_str_works() {
    assert_eq!(
        Adapter::RubyRspec(RubyRspec {}),
        "ruby_rspec".try_into().unwrap(),
    );
    assert_eq!(
        Adapter::RubyMinitest(RubyMinitest {}),
        "ruby_minitest".try_into().unwrap(),
    );

    assert!(Adapter::try_from("does_not_exist").is_err());
}

#[test]
fn from_key_gives_each_adapter_under_its_key() {
    assert_eq!(
        Adapter::from_key("ruby_rspec"),
        Ok(Adapter::RubyRspec(RubyRspec::new()))
    );
    assert_eq!(
        Adapter::from_key("ruby_minitest"),
        Ok(Adapter::RubyMinitest(RubyMinitest::new()))
    );
    assert_eq!(Adapter::from_key("ruby"), Err(UnknownAdapter {}));
    assert_eq!(Adapter::from_key(""), Err(UnknownAdapter {}));
    assert_eq!(UnknownAdapter {}.message(), "Unknown adapter");
}

#[test]
fn all_lists_rspec_before_minitest() {
    let adapters = all();
    assert_eq!(
        adapters,
        vec![
            Adapter::RubyRspec(RubyRspec::new()),
            Adapter::RubyMinitest(RubyMinitest::new())
        ]
    );
    assert_eq!(adapters[0].key(), "ruby_rspec");
    assert_eq!(adapters[1].key(), "ruby_minitest");
    for adapter in adapters {
        assert_eq!(Adapter::from_key(adapter.key()), Ok(adapter));
    }
}
