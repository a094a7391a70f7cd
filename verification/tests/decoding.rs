use cdlint::config::Vocabulary;
use cdlint::custom_difficulty::{ArrayOrSingleItem, CustomDifficulty, EnemyDescriptor, EnemyPool, EscortMule, Range};
use cdlint::decoder::{decode, handle_top_level_members};
use cdlint::diagnostic::Diagnostic;
use cdlint::json::Json;
use cdlint::members::{find_member, report_duplicates, sorted_members};
use cdlint::parser::parser;
use cdlint::span::{Span, Spanned};
use cdlint::validate::{
    decode_indices, decode_numbers, decode_texts, settle, validate_flag, validate_index, validate_number,
    validate_text, ValidationResult,
};

fn vocabulary() -> Vocabulary {
    Vocabulary {
        enemy_descriptors: vec!["ED_Grunt".to_string()],
        pawn_stats: vec!["PST_MovementSpeed".to_string()],
    }
}

fn tree(text: &str) -> Spanned<Json> {
    parser(text).0.expect("the text is a value")
}

fn decoded(text: &str) -> (CustomDifficulty, Vec<Diagnostic>) {
    let mut diags = Vec::new();
    let cd = decode(&tree(text), &vocabulary(), &mut diags).expect("the root is an object");
    (cd, diags)
}

#[test]
fn the_document_without_members_is_the_default() {
    let (cd, diags) = decoded("{}");
    assert!(diags.is_empty());
    let d = CustomDifficulty::default();
    assert_eq!(format!("{:?}", cd), format!("{:?}", d));
    assert!(cd.name.span.is_dummy());
    assert_eq!(cd.name.val, "");
    assert!(matches!(cd.max_active_enemies.val, ArrayOrSingleItem::SingleItem(0)));
    assert!(cd.enemy_descriptors.val.is_empty());
    assert!(cd.encounter_difficulty.val.is_empty());
}

#[test]
fn defaults_of_the_parts() {
    let pool = EnemyPool::default();
    assert!(!pool.clear.val);
    assert!(pool.add.val.is_empty());
    assert!(pool.remove.val.is_empty());
    assert!(pool.clear.span.is_dummy());
    let mule = EscortMule::default();
    assert_eq!(mule.friendly_fire_modifier.val.text, "0.1");
    assert_eq!(mule.neutral_damage_modifier.val.digits, b"1".to_vec());
    assert_eq!(mule.neutral_damage_modifier.val.exponent, 0);
    assert_eq!(mule.big_hit_damage_modifier.val.digits, b"5".to_vec());
    assert!(mule.big_hit_damage_reduction_threshold.val.digits.is_empty());
    let ed = EnemyDescriptor::default();
    assert_eq!(ed.base.val, "");
    assert!(!ed.elite.val);
    assert_eq!(ed.rarity.val, 0);
    assert!(ed.pawn_stats.val.0.is_empty());
    let r = Range::new(Spanned::defaulted(1usize), Spanned::defaulted(2usize));
    assert_eq!(r.min.val, 1);
    assert_eq!(r.max.val, 2);
}

#[test]
fn a_root_that_is_no_object_gives_no_document() {
    let mut diags = Vec::new();
    assert!(decode(&tree("[]"), &vocabulary(), &mut diags).is_none());
    assert!(decode(&tree("3"), &vocabulary(), &mut diags).is_none());
    assert!(diags.is_empty());
}

#[test]
fn the_members_can_be_decoded_by_themselves() {
    match tree(r#"{"Name": "x", "Nope": 1}"#).val {
        Json::Object(members) => {
            let mut diags = Vec::new();
            let cd = handle_top_level_members(&members, &vocabulary(), &mut diags);
            assert_eq!(cd.name.val, "x");
            assert_eq!(diags.len(), 1);
        },
        other => panic!("{:?}", other),
    }
}

#[test]
fn scalars_are_checked_by_their_kind() {
    assert!(matches!(validate_text(&tree("\"a\"")), ValidationResult::Valid(s) if s.val == "a" && s.span == Span::new(0, 3)));
    assert!(matches!(validate_text(&tree("1")), ValidationResult::Invalid(d) if d.message == "expected string, found number"));
    assert!(matches!(validate_flag(&tree("true")), ValidationResult::Valid(b) if b.val));
    assert!(matches!(validate_flag(&tree("null")), ValidationResult::Invalid(d) if d.message == "expected bool, found null"));
    assert!(matches!(validate_number(&tree("2.5")), ValidationResult::Valid(n) if n.val.text == "2.5"));
    assert!(matches!(validate_number(&tree("-2.5")), ValidationResult::Invalid(d) if d.message == "expected a finite number that is not negative, found -2.5"));
    assert!(matches!(validate_number(&tree("2e400")), ValidationResult::Invalid(d) if d.message == "expected a finite number that is not negative, found 2e400"));
    assert!(matches!(validate_number(&tree("[]")), ValidationResult::Invalid(d) if d.message == "expected number, found array"));
    assert!(matches!(validate_index(&tree("12")), ValidationResult::Valid(n) if n.val == 12));
    assert!(matches!(validate_index(&tree("0.5")), ValidationResult::Invalid(d) if d.message == "expected a whole number that is not negative, found 0.5"));
    assert!(matches!(validate_index(&tree("{}")), ValidationResult::Invalid(d) if d.message == "expected number, found object"));
}

#[test]
fn a_failed_check_is_reported_when_it_is_settled() {
    let mut diags = Vec::new();
    assert!(settle(validate_index(&tree("3")), &mut diags).is_some());
    assert!(diags.is_empty());
    assert!(settle(validate_index(&tree("-3")), &mut diags).is_none());
    assert_eq!(diags.len(), 1);
}

#[test]
fn arrays_of_scalars() {
    let mut diags = Vec::new();
    match decode_numbers(&tree("[1, 2.5]"), &mut diags).unwrap().val {
        ArrayOrSingleItem::Array(v) => assert_eq!(v.iter().map(|n| n.text.clone()).collect::<Vec<_>>(), vec!["1", "2.5"]),
        other => panic!("{:?}", other),
    }
    assert!(matches!(decode_numbers(&tree("4"), &mut diags).unwrap().val, ArrayOrSingleItem::SingleItem(n) if n.text == "4"));
    assert!(matches!(decode_indices(&tree("[]"), &mut diags).unwrap().val, ArrayOrSingleItem::Array(v) if v.is_empty()));
    assert!(matches!(decode_indices(&tree("4"), &mut diags).unwrap().val, ArrayOrSingleItem::SingleItem(4)));
    let texts = decode_texts(&tree(r#"["a", "b"]"#), &mut diags).unwrap();
    assert_eq!(texts.val.len(), 2);
    assert_eq!(texts.val[1].val, "b");
    assert_eq!(texts.val[1].span, Span::new(6, 9));
    assert!(diags.is_empty());
    assert!(decode_numbers(&tree("\"x\""), &mut diags).is_none());
    assert!(decode_indices(&tree("[1, 1.5, 2, -1]"), &mut diags).is_none());
    assert!(decode_texts(&tree("[\"a\", 1]"), &mut diags).is_none());
    assert!(decode_texts(&tree("\"a\""), &mut diags).is_none());
    assert_eq!(
        diags.iter().map(|d| d.message.as_str()).collect::<Vec<_>>(),
        vec![
            "expected number or array of numbers, found string",
            "expected a whole number that is not negative, found 1.5",
            "expected a whole number that is not negative, found -1",
            "expected string, found number",
            "expected array of strings, found string",
        ]
    );
}

#[test]
fn members_are_visited_sorted_and_once_for_each_key() {
    match tree(r#"{"b": 1, "a": 2, "c": 3, "a": 4, "B": 5, "b": 6, "": 7}"#).val {
        Json::Object(members) => {
            assert_eq!(sorted_members(&members), vec![6, 4, 1, 0, 2]);
            assert_eq!(find_member(&members, "a"), Some(1));
            assert_eq!(find_member(&members, "b"), Some(0));
            assert_eq!(find_member(&members, "z"), None);
            let mut diags = Vec::new();
            report_duplicates(&members, &mut diags);
            assert_eq!(diags.len(), 2);
            assert_eq!(diags[0].message, "member \"a\" is defined multiple times");
            assert_eq!(diags[1].message, "member \"b\" is defined multiple times");
            assert_eq!(diags[1].labels[0].span, members[0].0.span);
            assert_eq!(diags[1].labels[1].span, members[5].0.span);
        },
        other => panic!("{:?}", other),
    }
}

#[test]
fn descriptors_are_kept_in_the_order_of_their_names() {
    let (cd, diags) = decoded(
        r#"{"EnemyDescriptors": {"Zed": {"Base": "ED_Grunt", "Rarity": 3}, "Bad": 1, "Abe": {"Elite": true,
            "PawnStats": {"PST_MovementSpeed": 1.5}}}}"#,
    );
    assert_eq!(diags.len(), 1);
    assert_eq!(diags[0].message, "expected object, found number");
    let names: Vec<&str> = cd.enemy_descriptors.val.iter().map(|e| e.0.val.as_str()).collect();
    assert_eq!(names, vec!["Abe", "Zed"]);
    let abe = &cd.enemy_descriptors.val[0].1.val;
    assert!(abe.elite.val);
    assert!(abe.base.span.is_dummy());
    assert_eq!(abe.pawn_stats.val.0.len(), 1);
    assert_eq!(abe.pawn_stats.val.0[0].0.val, "PST_MovementSpeed");
    assert_eq!(abe.pawn_stats.val.0[0].1.val.text, "1.5");
    let zed = &cd.enemy_descriptors.val[1].1.val;
    assert_eq!(zed.base.val, "ED_Grunt");
    assert_eq!(zed.rarity.val, 3);
}

#[test]
fn weighted_ranges_are_decoded_with_their_spans() {
    let (cd, diags) = decoded(r#"{"EnemyDiversity": [{"weight": 2, "range": {"min": 3, "max": 5}}, {}]}"#);
    assert!(diags.is_empty());
    let bins = &cd.enemy_diversity.val;
    assert_eq!(bins.len(), 2);
    assert_eq!(bins[0].val.weight.val.text, "2");
    assert_eq!(bins[0].val.range.val.min.val, 3);
    assert_eq!(bins[0].val.range.val.max.val, 5);
    assert_eq!(bins[0].val.range.val.max.span, Span::new(61, 62));
    assert!(bins[1].val.range.span.is_dummy());
    assert_eq!(bins[1].val.range.val.max.val, 0);
    let (cd, diags) = decoded(r#"{"EnemyDiversity": [{"weight": 2}, 7], "VeteranLarge": 1}"#);
    assert_eq!(
        diags.iter().map(|d| d.message.as_str()).collect::<Vec<_>>(),
        vec!["expected object, found number", "expected array of objects, found number"]
    );
    assert!(cd.enemy_diversity.val.is_empty());
    assert!(cd.enemy_diversity.span.is_dummy());
}
