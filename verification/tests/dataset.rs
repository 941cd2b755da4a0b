use transformer::{
    decimal_string, make_pair, source_file_name, target_file_name, trim_text, DatasetLoader,
    LoadStep, TranslationPair,
};

#[test]
fn decimal_strings() {
    assert_eq!(decimal_string(0), "0");
    assert_eq!(decimal_string(7), "7");
    assert_eq!(decimal_string(10), "10");
    assert_eq!(decimal_string(1203), "1203");
    assert_eq!(decimal_string(u64::MAX), u64::MAX.to_string());
}

#[test]
fn file_names_follow_the_numbering() {
    assert_eq!(source_file_name(1), "1.txt");
    assert_eq!(target_file_name(1), "1p.txt");
    assert_eq!(source_file_name(42), "42.txt");
    assert_eq!(target_file_name(42), "42p.txt");
}

#[test]
fn trimming_removes_outer_unicode_whitespace() {
    assert_eq!(trim_text("  hello world \n"), "hello world");
    assert_eq!(trim_text("\t\u{3000}x y\u{a0}\r\n"), "x y");
    assert_eq!(trim_text("   "), "");
    assert_eq!(trim_text(""), "");
    assert_eq!(trim_text("inner  space"), "inner  space");
    assert_eq!(trim_text(&trim_text("  twice  ")), "twice");
}

#[test]
fn pairs_are_trimmed() {
    let pair: TranslationPair = make_pair("  Hello.\n", "\tBonjour.  ");
    assert_eq!(pair.source, "Hello.");
    assert_eq!(pair.target, "Bonjour.");
}

#[test]
fn loader_steps() {
    let loader = DatasetLoader::new();
    assert_eq!(loader.step(false, false), LoadStep::Finish);
    assert_eq!(loader.step(false, true), LoadStep::Finish);
    assert_eq!(loader.step(true, false), LoadStep::MissingTarget);
    assert_eq!(loader.step(true, true), LoadStep::ReadPair);
}

#[test]
fn loader_reads_pairs_in_order() {
    let mut loader = DatasetLoader::new();
    assert_eq!(loader.index(), 1);
    assert_eq!(loader.source_file_name(), "1.txt");
    assert_eq!(loader.target_file_name(), "1p.txt");
    loader.accept(" one \n", " un ");
    assert_eq!(loader.index(), 2);
    assert_eq!(loader.source_file_name(), "2.txt");
    assert_eq!(loader.target_file_name(), "2p.txt");
    loader.accept("two", "deux\n");
    let pairs = loader.into_pairs();
    assert_eq!(pairs.len(), 2);
    assert_eq!(pairs[0].source, "one");
    assert_eq!(pairs[0].target, "un");
    assert_eq!(pairs[1].source, "two");
    assert_eq!(pairs[1].target, "deux");
}

#[test]
fn empty_dataset() {
    let loader = DatasetLoader::new();
    assert!(loader.into_pairs().is_empty());
}

#[test]
fn every_pair_has_its_own_files() {
    let mut names = Vec::new();
    for index in 1..=120u64 {
        names.push(source_file_name(index));
        names.push(target_file_name(index));
    }
    let count = names.len();
    names.sort();
    names.dedup();
    assert_eq!(names.len(), count);
    assert_ne!(source_file_name(1), source_file_name(11));
    assert_ne!(target_file_name(1), source_file_name(1));
}
