use cdlint::config::{contains_name, Config, Vocabulary};
use cdlint::diagnostic::{report, Color, Diagnostic, Label, Severity};
use cdlint::edit_distance::{edit_distance, suggest};
use cdlint::late_lints::empty_cd_name::is_blank;
use cdlint::late_lints::{message_naming, message_naming_two};
use cdlint::names::NameTable;
use cdlint::source::{characters, Source};
use cdlint::span::{Span, Spanned};
use cdlint::text::{bytes_eq, bytes_lt, decimal, push_quoted, str_eq, string_lt};

fn chars(s: &str) -> Vec<char> {
    s.chars().collect()
}

#[test]
fn the_order_of_strings_is_that_of_their_bytes() {
    let words = ["", "A", "AB", "Ab", "B", "a", "ab", "abc", "b", "é", "z", "Zeta", "\u{10000}", "\u{ffff}"];
    for a in words {
        for b in words {
            assert_eq!(string_lt(a, b), a < b, "{:?} < {:?}", a, b);
            assert_eq!(bytes_lt(a.as_bytes(), b.as_bytes()), a.as_bytes() < b.as_bytes());
            assert_eq!(str_eq(a, b), a == b);
            assert_eq!(bytes_eq(a.as_bytes(), b.as_bytes()), a == b);
        }
    }
}

#[test]
fn decimal_writes_a_count() {
    assert_eq!(decimal(0), "0");
    assert_eq!(decimal(7), "7");
    assert_eq!(decimal(10), "10");
    assert_eq!(decimal(1234567890), "1234567890");
    assert_eq!(decimal(usize::MAX), usize::MAX.to_string());
}

#[test]
fn names_are_quoted_in_messages() {
    let mut m = String::from("x ");
    push_quoted(&mut m, "a b");
    assert_eq!(m, "x \"a b\"");
    assert_eq!(message_naming("before ", "N", " after"), "before \"N\" after");
    assert_eq!(message_naming_two("a ", "X", " b ", "Y", " c"), "a \"X\" b \"Y\" c");
}

#[test]
fn a_name_of_white_space_is_blank() {
    assert!(is_blank(""));
    assert!(is_blank("   "));
    assert!(is_blank(" \t\n\u{a0}\u{3000}"));
    assert!(!is_blank(" a "));
    assert!(!is_blank("\u{200b}"));
}

#[test]
fn edit_distances() {
    assert_eq!(edit_distance(&chars(""), &chars("")), 0);
    assert_eq!(edit_distance(&chars("abc"), &chars("")), 3);
    assert_eq!(edit_distance(&chars(""), &chars("ab")), 2);
    assert_eq!(edit_distance(&chars("kitten"), &chars("sitting")), 3);
    assert_eq!(edit_distance(&chars("flaw"), &chars("lawn")), 2);
    assert_eq!(edit_distance(&chars("Name"), &chars("Name")), 0);
    assert_eq!(edit_distance(&chars("Nmae"), &chars("Name")), 2);
    assert_eq!(edit_distance(&chars("héllo"), &chars("hello")), 1);
}

#[test]
fn the_nearest_name_is_suggested_within_a_third_of_the_length() {
    let names: Vec<String> = ["Name", "Description", "HazardBonus", "EnemyPool"].iter().map(|s| s.to_string()).collect();
    assert_eq!(suggest(&names, "HazardBonu"), Some(2));
    assert_eq!(suggest(&names, "HazardBonus"), Some(2));
    assert_eq!(suggest(&names, "Nam"), Some(0));
    assert_eq!(suggest(&names, "Descripton"), Some(1));
    assert_eq!(suggest(&names, "EnemiPoll"), Some(3));
    assert_eq!(suggest(&names, "EnemiesPools"), Some(3));
    assert_eq!(suggest(&names, "EnemiesPoolsX"), None);
    assert_eq!(suggest(&names, "Xyz"), None);
    assert_eq!(suggest(&Vec::new(), "Name"), None);
}

#[test]
fn of_names_at_one_distance_the_first_is_suggested() {
    let names: Vec<String> = ["abcd", "abce"].iter().map(|s| s.to_string()).collect();
    assert_eq!(suggest(&names, "abcf"), Some(0));
    let names: Vec<String> = ["abce", "abcd"].iter().map(|s| s.to_string()).collect();
    assert_eq!(suggest(&names, "abcf"), Some(0));
    assert_eq!(suggest(&names, "abcd"), Some(1));
}

#[test]
fn names_keep_the_numbers_of_their_first_entry() {
    let mut table = NameTable::new();
    assert_eq!(table.len(), 0);
    assert_eq!(table.intern("b".to_string()), 0);
    assert_eq!(table.intern("a".to_string()), 1);
    assert_eq!(table.intern("b".to_string()), 0);
    assert_eq!(table.intern("c".to_string()), 2);
    assert_eq!(table.len(), 3);
    assert_eq!(table.find("a"), Some(1));
    assert_eq!(table.find("c"), Some(2));
    assert_eq!(table.find("d"), None);
    assert_eq!(table.name(0), "b");
    assert_eq!(table.name(2), "c");
}

#[test]
fn names_are_found_in_lists() {
    let names = vec!["x".to_string(), "y".to_string()];
    assert!(contains_name(&names, "y"));
    assert!(!contains_name(&names, "z"));
    assert!(!contains_name(&Vec::new(), "x"));
}

#[test]
fn the_options_begin_empty() {
    let config = Config::new();
    assert!(config.extra_enemy_descriptors.is_empty());
    assert!(!config.generate_cyclic_reference_graph);
    let vocabulary = Vocabulary { enemy_descriptors: Vec::new(), pawn_stats: Vec::new() };
    assert!(vocabulary.enemy_descriptors.is_empty());
}

#[test]
fn spans_know_their_length_and_the_sentinel() {
    let s = Span::new(3, 8);
    assert_eq!(s.lo, 3);
    assert_eq!(s.hi, 8);
    assert_eq!(s.len(), 5);
    assert!(!s.is_dummy());
    assert_eq!(Span::new(4, 4).len(), 0);
    let d = Span::dummy();
    assert!(d.is_dummy());
    assert_eq!(d, Span { lo: usize::MAX, hi: usize::MAX });
    assert!(Spanned::defaulted(1).span.is_dummy());
    let v = Spanned::new(s, "x");
    assert_eq!(v.span, s);
    assert_eq!(v.val, "x");
}

#[test]
fn the_source_knows_the_byte_offset_of_each_character() {
    let source = Source::new("aé€😀z");
    assert_eq!(source.chars, chars("aé€😀z"));
    assert_eq!(source.offsets, vec![0, 1, 3, 6, 10, 11]);
    assert_eq!(source.len(), 5);
    assert_eq!(source.span(1, 3), Span { lo: 1, hi: 6 });
    assert_eq!(source.span(5, 5), Span { lo: 11, hi: 11 });
    assert_eq!(source.text(1, 4), "é€😀");
    assert_eq!(source.text(2, 2), "");
    assert_eq!(characters("añb"), chars("añb"));
    assert!(Source::new("").chars.is_empty());
    assert_eq!(Source::new("").offsets, vec![0]);
}

#[test]
fn diagnostics_are_built_part_by_part() {
    let d = Diagnostic::new(Severity::Warning, 4, "m".to_string())
        .with_label(Label::new(Span::new(1, 2), Color::Yellow))
        .with_label(Label::with_message(Span::new(3, 4), Color::Red, "here".to_string()))
        .with_help("try".to_string());
    assert_eq!(d.severity, Severity::Warning);
    assert_eq!(d.offset, 4);
    assert_eq!(d.message, "m");
    assert_eq!(d.labels.len(), 2);
    assert_eq!(d.labels[0].span, Span::new(1, 2));
    assert_eq!(d.labels[0].message, None);
    assert_eq!(d.labels[1].color, Color::Red);
    assert_eq!(d.labels[1].message.as_deref(), Some("here"));
    assert_eq!(d.help.as_deref(), Some("try"));
    let mut all = Vec::new();
    report(&mut all, d);
    report(&mut all, Diagnostic::new(Severity::Error, 0, "n".to_string()));
    assert_eq!(all.len(), 2);
    assert_eq!(all[1].message, "n");
    assert!(all[1].labels.is_empty());
    assert_eq!(all[1].help, None);
}
