use ttest::environment::Environment;
use ttest::test_index::{IndexEntry, IndexError, TestIndex};

const MARKED: &str =
    "# one\n  it 'two' do\n  end\n\n  it 'five' do\n  end\n\n\n  it 'nine' do\n  end\n";

fn entry(line_number: u32, content: &str) -> IndexEntry {
    IndexEntry::new(line_number, content.to_string())
}

#[test]
fn scan_records_each_line_that_holds_a_pattern() {
    let index = TestIndex::scan(MARKED.as_bytes(), &["  it '"]).unwrap();
    assert_eq!(
        index.entries(),
        vec![
            entry(2, "  it 'two' do\n"),
            entry(5, "  it 'five' do\n"),
            entry(9, "  it 'nine' do\n"),
        ]
    );
}

#[test]
fn closest_to_line_number_returns_the_nearest_entry() {
    let index = TestIndex::scan(MARKED.as_bytes(), &["  it '"]).unwrap();
    assert_eq!(
        index.closest_to_line_number(6),
        Some(entry(5, "  it 'five' do\n"))
    );
    assert_eq!(
        index.closest_to_line_number(8),
        Some(entry(9, "  it 'nine' do\n"))
    );
    assert_eq!(
        index.closest_to_line_number(2),
        Some(entry(2, "  it 'two' do\n"))
    );
    assert_eq!(
        index.closest_to_line_number(0),
        Some(entry(2, "  it 'two' do\n"))
    );
    assert_eq!(
        index.closest_to_line_number(u32::MAX),
        Some(entry(9, "  it 'nine' do\n"))
    );
}

#[test]
fn closest_to_line_number_returns_the_earlier_of_two_equally_near_entries() {
    let index = TestIndex::scan(MARKED.as_bytes(), &["  it '"]).unwrap();
    assert_eq!(
        index.closest_to_line_number(7),
        Some(entry(5, "  it 'five' do\n"))
    );
    let twice = TestIndex::scan(b"x\n\nx\n\nx\n", &["x"]).unwrap();
    assert_eq!(twice.closest_to_line_number(2), Some(entry(1, "x\n")));
    assert_eq!(twice.closest_to_line_number(4), Some(entry(3, "x\n")));
    assert_eq!(twice.closest_to_line_number(3), Some(entry(3, "x\n")));
}

#[test]
fn closest_to_line_number_does_not_return_the_farthest_entry() {
    let index = TestIndex::scan(MARKED.as_bytes(), &["  it '"]).unwrap();
    let near = index.closest_to_line_number(3).unwrap();
    assert_eq!(near.line_number(), 2);
    assert_eq!(near.content(), "  it 'two' do\n");
    let far = index.closest_to_line_number(10).unwrap();
    assert_eq!(far.line_number(), 9);
}

#[test]
fn closest_to_line_number_returns_nothing_for_an_empty_index() {
    let index = TestIndex::scan(b"nothing\nhere\n", &["  it '"]).unwrap();
    assert_eq!(index.entries(), Vec::new());
    assert_eq!(index.closest_to_line_number(1), None);
    let empty = TestIndex::scan(b"", &["x"]).unwrap();
    assert_eq!(empty.closest_to_line_number(0), None);
    let no_patterns = TestIndex::scan(MARKED.as_bytes(), &[]).unwrap();
    assert_eq!(no_patterns.closest_to_line_number(2), None);
}

#[test]
fn scan_takes_any_of_the_patterns() {
    let data = b"def a\nit b\n\ntest c\nit test d";
    let index = TestIndex::scan(data, &["it ", "test "]).unwrap();
    assert_eq!(
        index.entries(),
        vec![entry(2, "it b\n"), entry(4, "test c\n"), entry(5, "it test d")]
    );
}

#[test]
fn scan_keeps_the_line_ending_in_the_content() {
    let index = TestIndex::scan(b"a\r\nb\na", &["a", "b"]).unwrap();
    assert_eq!(
        index.entries(),
        vec![entry(1, "a\r\n"), entry(2, "b\n"), entry(3, "a")]
    );
}

#[test]
fn scan_does_not_match_across_lines() {
    let index = TestIndex::scan(b"ab\ncd\n", &["b\nc", "bc"]).unwrap();
    assert_eq!(index.entries(), Vec::new());
    let with_ending = TestIndex::scan(b"ab\ncd\n", &["b\n"]).unwrap();
    assert_eq!(with_ending.entries(), vec![entry(1, "ab\n")]);
}

#[test]
fn scan_skips_lines_that_are_not_text() {
    let data = b"it one\nit \xff two\nit three\n\xc3\nit \xe2\x98\x83\n";
    let index = TestIndex::scan(data, &["it "]).unwrap();
    assert_eq!(
        index.entries(),
        vec![
            entry(1, "it one\n"),
            entry(3, "it three\n"),
            entry(5, "it \u{2603}\n"),
        ]
    );
}

#[test]
fn scan_matches_the_empty_pattern_on_every_line() {
    let index = TestIndex::scan(b"a\n\nb", &[""]).unwrap();
    assert_eq!(
        index.entries(),
        vec![entry(1, "a\n"), entry(2, "\n"), entry(3, "b")]
    );
}

#[test]
fn scan_matches_patterns_beyond_ascii() {
    let index = TestIndex::scan("x\n  it \u{2603}\n".as_bytes(), &["it \u{2603}"]).unwrap();
    assert_eq!(index.entries(), vec![entry(2, "  it \u{2603}\n")]);
}

#[test]
fn build_reads_the_file_from_the_environment() {
    let mut env = Environment::new();
    env.write_file("my_test.rb", MARKED);
    let index = TestIndex::build(&env, &"my_test.rb".into(), &["  it '"]).unwrap();
    assert_eq!(
        index,
        TestIndex::scan(MARKED.as_bytes(), &["  it '"]).unwrap()
    );
    assert_eq!(index.entries().len(), 3);
}

#[test]
fn build_fails_when_the_file_cannot_be_read() {
    let mut env = Environment::new();
    env.write_file("my_test.rb", MARKED);
    env.add_unreadable("test");
    assert_eq!(
        TestIndex::build(&env, &"other_test.rb".into(), &["  it '"]),
        Err(IndexError::IoError)
    );
    assert_eq!(
        TestIndex::build(&env, &"test".into(), &["  it '"]),
        Err(IndexError::IoError)
    );
}

#[test]
fn building_twice_gives_the_same_entries() {
    let mut env = Environment::new();
    env.write_bytes("my_test.rb", b"it a\n\xff it b\nit c".to_vec());
    let first = TestIndex::build(&env, &"my_test.rb".into(), &["it "]).unwrap();
    let second = TestIndex::build(&env, &"my_test.rb".into(), &["it "]).unwrap();
    assert_eq!(first, second);
    assert_eq!(first.entries(), second.entries());
    assert_eq!(first.entries(), vec![entry(1, "it a\n"), entry(3, "it c")]);
}

#[test]
fn an_entry_gives_back_what_it_was_made_of() {
    let made = IndexEntry::new(7, "  def test_x\n".to_string());
    assert_eq!(made.content(), "  def test_x\n");
    assert_eq!(made.line_number(), 7);
    assert_eq!(made.clone(), made);
    assert_ne!(made, IndexEntry::new(8, "  def test_x\n".to_string()));
    assert_ne!(made, IndexEntry::new(7, "  def test_y\n".to_string()));
}
