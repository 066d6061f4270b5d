use dotfile_sync::link::Link;
use dotfile_sync::name_map::NameMap;
use dotfile_sync::variable_path::VariablePath;
use dotfile_sync::source::SourceSelector;
use dotfile_sync::text::decimal_text;

fn owned(s: &str) -> String {
    s.to_string()
}

#[test]
fn a_new_map_binds_nothing() {
    let map: NameMap<String> = NameMap::new();
    assert_eq!(map.len(), 0);
    assert!(!map.contains_key("a"));
    assert_eq!(map.get("a"), None);
}

#[test]
fn insert_binds_and_rebinds() {
    let mut map: NameMap<String> = NameMap::new();
    map.insert(owned("a"), owned("1"));
    map.insert(owned("b"), owned("2"));
    map.insert(owned("a"), owned("3"));
    assert_eq!(map.len(), 2);
    assert_eq!(map.get("a"), Some(&owned("3")));
    assert_eq!(map.get("b"), Some(&owned("2")));
    assert_eq!(map.name_at(0), "a");
    assert_eq!(map.value_at(0), "3");
    assert_eq!(map.name_at(1), "b");
    assert_eq!(map.value_at(1), "2");
}

#[test]
fn remove_unbinds_one_name_only() {
    let mut map: NameMap<String> = NameMap::new();
    map.insert(owned("a"), owned("1"));
    map.insert(owned("b"), owned("2"));
    map.insert(owned("c"), owned("3"));
    map.remove("b");
    map.remove("missing");
    assert_eq!(map.len(), 2);
    assert!(map.contains_key("a"));
    assert!(!map.contains_key("b"));
    assert_eq!(map.name_at(1), "c");
    assert_eq!(map.get("c"), Some(&owned("3")));
}

#[test]
fn a_copy_of_a_map_binds_the_same() {
    let mut map: NameMap<String> = NameMap::new();
    map.insert(owned("a"), owned("1"));
    map.insert(owned("b"), owned("2"));
    let copy = map.clone();
    map.insert(owned("a"), owned("changed"));
    assert_eq!(copy.len(), 2);
    assert_eq!(copy.get("a"), Some(&owned("1")));
    assert_eq!(copy.name_at(1), "b");
}

#[test]
fn a_single_source_serves_every_system() {
    let source = SourceSelector::new_single(owned(".bashrc"));
    assert!(source.is_single());
    assert_eq!(source.default_path(), ".bashrc");
    assert!(source.overrides().is_none());
    assert_eq!(source.resolve_for(None), ".bashrc");
    assert_eq!(source.resolve_for(Some("work")), ".bashrc");
}

#[test]
fn the_first_override_makes_the_single_place_the_default() {
    let single = SourceSelector::new_single(owned(".bashrc"));
    let source = single.insert_override("work", ".bashrc.work");
    assert!(single.is_single());
    assert!(!source.is_single());
    assert_eq!(source.default_path(), ".bashrc");
    let table = source.overrides().unwrap();
    assert_eq!(table.len(), 1);
    assert_eq!(table.get("work"), Some(&owned(".bashrc.work")));
    assert_eq!(source.resolve_for(Some("work")), ".bashrc.work");
    assert_eq!(source.resolve_for(Some("home")), ".bashrc");
    assert_eq!(source.resolve_for(None), ".bashrc");
}

#[test]
fn insert_override_twice_is_insert_override_once() {
    let single = SourceSelector::new_single(owned(".bashrc"));
    let once = single.insert_override("work", ".bashrc.work");
    let twice = once.insert_override("work", ".bashrc.work");
    assert_eq!(twice.resolve_for(Some("work")), ".bashrc.work");
    assert_eq!(twice.overrides().unwrap().len(), 1);
    assert_eq!(twice.default_path(), once.default_path());
    assert_eq!(twice.overrides().unwrap().name_at(0), "work");
}

#[test]
fn the_last_override_of_a_system_wins() {
    let single = SourceSelector::new_single(owned(".bashrc"));
    let source = single.insert_override("work", "first").insert_override("work", "second");
    assert_eq!(source.resolve_for(Some("work")), "second");
    assert_eq!(source.overrides().unwrap().len(), 1);
}

#[test]
fn overrides_of_other_systems_are_kept() {
    let source = SourceSelector::new_single(owned(".bashrc"))
        .insert_override("work", "w")
        .insert_override("home", "h")
        .insert_override("work", "w2");
    assert_eq!(source.resolve_for(Some("work")), "w2");
    assert_eq!(source.resolve_for(Some("home")), "h");
    assert_eq!(source.overrides().unwrap().len(), 2);
}

#[test]
fn an_override_that_is_the_default_is_no_override() {
    let single = SourceSelector::new_single(owned(".bashrc"));
    let same = single.insert_override("work", ".bashrc");
    assert!(!same.is_single());
    assert_eq!(same.default_path(), ".bashrc");
    assert_eq!(same.overrides().unwrap().len(), 0);
    assert_eq!(same.resolve_for(Some("work")), ".bashrc");
    assert_eq!(same.describe(), "0 system overrides + default .bashrc");

    let source = single.insert_override("work", ".bashrc.work");
    let back = source.insert_override("work", ".bashrc");
    assert!(!back.is_single());
    assert_eq!(back.overrides().unwrap().len(), 0);
    assert_eq!(back.resolve_for(Some("work")), ".bashrc");
}

#[test]
fn a_selector_without_overrides_is_not_a_single_source() {
    let source = SourceSelector::new_per_system(owned(".bashrc"));
    assert!(!source.is_single());
    assert_eq!(source.overrides().unwrap().len(), 0);
    assert_eq!(source.resolve_for(Some("work")), ".bashrc");
    assert_eq!(source.describe(), "0 system overrides + default .bashrc");
}

#[test]
fn a_copy_of_a_selector_serves_the_same() {
    let source = SourceSelector::new_single(owned(".bashrc")).insert_override("work", "w");
    let copy = source.clone();
    assert_eq!(copy.resolve_for(Some("work")), "w");
    assert_eq!(copy.resolve_for(None), ".bashrc");
    assert_eq!(SourceSelector::new_single(owned("x")).clone().is_single(), true);
}

#[test]
fn the_summary_tells_the_two_forms_apart() {
    let single = SourceSelector::new_single(owned(".bashrc"));
    assert_eq!(single.describe(), "single source .bashrc");
    let one = single.insert_override("work", "w");
    assert_eq!(one.describe(), "1 system overrides + default .bashrc");
    let two = one.insert_override("home", "h");
    assert_eq!(two.describe(), "2 system overrides + default .bashrc");
}

#[test]
fn decimal_text_writes_numbers_as_they_are_read() {
    assert_eq!(decimal_text(0), "0");
    assert_eq!(decimal_text(7), "7");
    assert_eq!(decimal_text(10), "10");
    assert_eq!(decimal_text(12345), "12345");
    assert_eq!(decimal_text(9876543210), "9876543210");
    assert_eq!(decimal_text(u64::MAX), "18446744073709551615");
}

#[test]
fn a_selector_holds_its_places_and_what_lies_under_them() {
    let source = SourceSelector::new_single(owned("shell")).insert_override("work", "work/shell");
    assert!(source.contains_path("/proj", "shell"));
    assert!(source.contains_path("/proj", "shell/.bashrc"));
    assert!(source.contains_path("/proj", "work/shell/.bashrc"));
    assert!(source.contains_path("/proj", "/proj/shell/.bashrc"));
    assert!(!source.contains_path("/proj", "shellfish"));
    assert!(!source.contains_path("/proj", "work"));
    assert!(!source.contains_path("/proj", "vim/.vimrc"));
}

#[test]
fn a_link_is_described_by_name_destination_and_source() {
    let link = Link::new(
        owned(".bashrc"),
        VariablePath::new(owned("${HOME}/.bashrc")),
        SourceSelector::new_single(owned("shell/.bashrc")),
    );
    assert_eq!(link.describe(), ".bashrc: ${HOME}/.bashrc -> single source shell/.bashrc");
    let copy = link.clone();
    assert_eq!(copy.name, ".bashrc");
    assert_eq!(copy.destination, link.destination);
    let moved = Link::new(
        owned("rc"),
        VariablePath::new(owned("/etc/rc")),
        SourceSelector::new_single(owned("rc")).insert_override("work", "work/rc"),
    );
    assert_eq!(moved.describe(), "rc: /etc/rc -> 1 system overrides + default rc");
}

#[test]
fn the_number_of_names_is_the_number_of_bindings() {
    let mut map: NameMap<String> = NameMap::new();
    for round in 0..3 {
        for name in ["a", "b", "c", "d", "e", "f", "g", "h", "i", "j", "k", "l"] {
            map.insert(owned(name), decimal_text(round));
        }
    }
    assert_eq!(map.len(), 12);
    assert_eq!(map.get("l"), Some(&owned("2")));
    let source = SourceSelector::new_single(owned("x"));
    let mut grown = source.clone();
    for name in ["a", "b", "c", "d", "e", "f", "g", "h", "i", "j", "k", "l"] {
        grown = grown.insert_override(name, name);
    }
    assert_eq!(grown.describe(), "12 system overrides + default x");
}
