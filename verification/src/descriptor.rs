//! An enemy descriptor: an object with a fixed set of members.

use crate::config::{names_view, Vocabulary};
use crate::custom_difficulty::{
    default_flag, default_index, default_number, default_stats, default_text, EnemyDescriptor, PawnStats,
};
use crate::diagnostic::{Diagnostic, DiagnosticView, report, views};
use crate::fields::{
    decode_flag_field, decode_index_field, decode_number_field, decode_text_field, flag_field_findings,
    flag_held, index_field_findings, index_held, lemma_flag_held, lemma_index_held, lemma_number_held,
    lemma_text_held, number_field_findings, number_held, text_field_findings, text_held,
};
use crate::json::Json;
use crate::members::{
    duplicate_findings, lemma_reported, Member, report_duplicates, report_gap, sorted_members, unknown_in_gap,
};
use crate::number::Number;
use crate::span::Spanned;
use crate::stats::{decode_stats_field, lemma_stats_held, stats_field_findings, stats_held};
use crate::validate::{expectation, mismatch};
use vstd::prelude::*;
use vstd::string::*;

verus! {

/// The keys of an enemy descriptor.
pub open spec fn descriptor_names() -> Seq<Seq<char>> {
    seq![
        "Base"@,
        "CanBeUsedForConstantPressure"@,
        "CanBeUsedInEncounters"@,
        "DifficultyRating"@,
        "Elite"@,
        "IdealSpawnSize"@,
        "MaxSpawnCount"@,
        "MinSpawnCount"@,
        "PawnStats"@,
        "Rarity"@,
        "Scale"@,
        "SpawnAmountModifier"@,
        "SpawnSpread"@,
        "TimeDilation"@,
    ]
}

/// The keys of an enemy descriptor.
pub fn descriptor_keys() -> (keys: Vec<String>)
    ensures
        names_view(keys@) == descriptor_names(),
{
    let mut keys: Vec<String> = Vec::new();
    keys.push(String::from_str("Base"));
    keys.push(String::from_str("CanBeUsedForConstantPressure"));
    keys.push(String::from_str("CanBeUsedInEncounters"));
    keys.push(String::from_str("DifficultyRating"));
    keys.push(String::from_str("Elite"));
    keys.push(String::from_str("IdealSpawnSize"));
    keys.push(String::from_str("MaxSpawnCount"));
    keys.push(String::from_str("MinSpawnCount"));
    keys.push(String::from_str("PawnStats"));
    keys.push(String::from_str("Rarity"));
    keys.push(String::from_str("Scale"));
    keys.push(String::from_str("SpawnAmountModifier"));
    keys.push(String::from_str("SpawnSpread"));
    keys.push(String::from_str("TimeDilation"));
    assert(names_view(keys@) =~= descriptor_names());
    keys
}

/// What the members of an enemy descriptor report: the members that repeat a key, in
/// the order of the input; then, in the order of the keys, what each member
/// that the schema knows reports of its value, and each member that the
/// schema does not know.
#[verifier::opaque]
pub open spec fn descriptor_object_findings(members: Seq<Member>, vocabulary: &Vocabulary) -> Seq<DiagnosticView> {
    let known = descriptor_names();
    let a = duplicate_findings(members, members.len() as int);
    let a = a + unknown_in_gap(members, known, None, Some("Base"@));
    let a = a + text_field_findings(members, "Base"@);
    let a = a + unknown_in_gap(members, known, Some("Base"@), Some("CanBeUsedForConstantPressure"@));
    let a = a + flag_field_findings(members, "CanBeUsedForConstantPressure"@);
    let a = a + unknown_in_gap(members, known, Some("CanBeUsedForConstantPressure"@), Some("CanBeUsedInEncounters"@));
    let a = a + flag_field_findings(members, "CanBeUsedInEncounters"@);
    let a = a + unknown_in_gap(members, known, Some("CanBeUsedInEncounters"@), Some("DifficultyRating"@));
    let a = a + number_field_findings(members, "DifficultyRating"@);
    let a = a + unknown_in_gap(members, known, Some("DifficultyRating"@), Some("Elite"@));
    let a = a + flag_field_findings(members, "Elite"@);
    let a = a + unknown_in_gap(members, known, Some("Elite"@), Some("IdealSpawnSize"@));
    let a = a + index_field_findings(members, "IdealSpawnSize"@);
    let a = a + unknown_in_gap(members, known, Some("IdealSpawnSize"@), Some("MaxSpawnCount"@));
    let a = a + index_field_findings(members, "MaxSpawnCount"@);
    let a = a + unknown_in_gap(members, known, Some("MaxSpawnCount"@), Some("MinSpawnCount"@));
    let a = a + index_field_findings(members, "MinSpawnCount"@);
    let a = a + unknown_in_gap(members, known, Some("MinSpawnCount"@), Some("PawnStats"@));
    let a = a + stats_field_findings(members, "PawnStats"@, vocabulary);
    let a = a + unknown_in_gap(members, known, Some("PawnStats"@), Some("Rarity"@));
    let a = a + index_field_findings(members, "Rarity"@);
    let a = a + unknown_in_gap(members, known, Some("Rarity"@), Some("Scale"@));
    let a = a + number_field_findings(members, "Scale"@);
    let a = a + unknown_in_gap(members, known, Some("Scale"@), Some("SpawnAmountModifier"@));
    let a = a + index_field_findings(members, "SpawnAmountModifier"@);
    let a = a + unknown_in_gap(members, known, Some("SpawnAmountModifier"@), Some("SpawnSpread"@));
    let a = a + number_field_findings(members, "SpawnSpread"@);
    let a = a + unknown_in_gap(members, known, Some("SpawnSpread"@), Some("TimeDilation"@));
    let a = a + number_field_findings(members, "TimeDilation"@);
    a + unknown_in_gap(members, known, Some("TimeDilation"@), None)
}

/// `out` is what the members of an enemy descriptor give: each field has the value of
/// its member, where that is accepted, and else its default.
#[verifier::opaque]
pub open spec fn descriptor_object_value(members: Seq<Member>, out: &EnemyDescriptor, vocabulary: &Vocabulary) -> bool {
    &&& text_held(
        members,
        "Base"@,
        &out.base,
        default_text(out.base),
    )
    &&& flag_held(
        members,
        "CanBeUsedForConstantPressure"@,
        &out.can_be_used_for_constant_pressure,
        default_flag(out.can_be_used_for_constant_pressure),
    )
    &&& flag_held(
        members,
        "CanBeUsedInEncounters"@,
        &out.can_be_used_in_encounters,
        default_flag(out.can_be_used_in_encounters),
    )
    &&& number_held(
        members,
        "DifficultyRating"@,
        &out.difficulty_rating,
        default_number(out.difficulty_rating),
    )
    &&& flag_held(
        members,
        "Elite"@,
        &out.elite,
        default_flag(out.elite),
    )
    &&& index_held(
        members,
        "IdealSpawnSize"@,
        &out.ideal_spawn_size,
        default_index(out.ideal_spawn_size),
    )
    &&& index_held(
        members,
        "MaxSpawnCount"@,
        &out.max_spawn_count,
        default_index(out.max_spawn_count),
    )
    &&& index_held(
        members,
        "MinSpawnCount"@,
        &out.min_spawn_count,
        default_index(out.min_spawn_count),
    )
    &&& stats_held(
        members,
        "PawnStats"@,
        &out.pawn_stats,
        default_stats(out.pawn_stats),
        vocabulary,
    )
    &&& index_held(
        members,
        "Rarity"@,
        &out.rarity,
        default_index(out.rarity),
    )
    &&& number_held(
        members,
        "Scale"@,
        &out.scale,
        default_number(out.scale),
    )
    &&& index_held(
        members,
        "SpawnAmountModifier"@,
        &out.spawn_amount_modifier,
        default_index(out.spawn_amount_modifier),
    )
    &&& number_held(
        members,
        "SpawnSpread"@,
        &out.spawn_spread,
        default_number(out.spawn_spread),
    )
    &&& number_held(
        members,
        "TimeDilation"@,
        &out.time_dilation,
        default_number(out.time_dilation),
    )
}

/// Decodes the members of an enemy descriptor.
pub fn decode_descriptor_object(
    members: &Vec<Member>,
    vocabulary: &Vocabulary,
    diag: &mut Vec<Diagnostic>,
) -> (out: EnemyDescriptor)
    ensures
        views(final(diag)@) == views(old(diag)@) + descriptor_object_findings(members@, vocabulary),
        descriptor_object_value(members@, &out, vocabulary),
{
    reveal(descriptor_object_findings);
    reveal(descriptor_object_value);
    let ghost start = views(diag@);
    let ghost names = descriptor_names();
    let known = descriptor_keys();
    report_duplicates(members, diag);
    let ghost mut a = duplicate_findings(members@, members@.len() as int);
    let order = sorted_members(members);
    report_gap(members, &order, &known, None, Some("Base"), diag);
    proof {
        let gap = unknown_in_gap(members@, names, None, Some("Base"@));
        lemma_reported(start, a, gap, views(diag@));
        a = a + gap;
    }
    let fallback = Spanned::defaulted(String::new());
    let ghost fallen = fallback;
    let base = decode_text_field(members, "Base", fallback, diag);
    proof {
        let found = text_field_findings(members@, "Base"@);
        lemma_reported(start, a, found, views(diag@));
        a = a + found;
        lemma_text_held(members@, "Base"@, &base, &fallen, default_text(base),);
    }
    report_gap(members, &order, &known, Some("Base"), Some("CanBeUsedForConstantPressure"), diag);
    proof {
        let gap = unknown_in_gap(members@, names, Some("Base"@), Some("CanBeUsedForConstantPressure"@));
        lemma_reported(start, a, gap, views(diag@));
        a = a + gap;
    }
    let fallback = Spanned::defaulted(false);
    let ghost fallen = fallback;
    let can_be_used_for_constant_pressure = decode_flag_field(members, "CanBeUsedForConstantPressure", fallback, diag);
    proof {
        let found = flag_field_findings(members@, "CanBeUsedForConstantPressure"@);
        lemma_reported(start, a, found, views(diag@));
        a = a + found;
        lemma_flag_held(members@, "CanBeUsedForConstantPressure"@, &can_be_used_for_constant_pressure, &fallen, default_flag(can_be_used_for_constant_pressure),);
    }
    report_gap(members, &order, &known, Some("CanBeUsedForConstantPressure"), Some("CanBeUsedInEncounters"), diag);
    proof {
        let gap = unknown_in_gap(members@, names, Some("CanBeUsedForConstantPressure"@), Some("CanBeUsedInEncounters"@));
        lemma_reported(start, a, gap, views(diag@));
        a = a + gap;
    }
    let fallback = Spanned::defaulted(false);
    let ghost fallen = fallback;
    let can_be_used_in_encounters = decode_flag_field(members, "CanBeUsedInEncounters", fallback, diag);
    proof {
        let found = flag_field_findings(members@, "CanBeUsedInEncounters"@);
        lemma_reported(start, a, found, views(diag@));
        a = a + found;
        lemma_flag_held(members@, "CanBeUsedInEncounters"@, &can_be_used_in_encounters, &fallen, default_flag(can_be_used_in_encounters),);
    }
    report_gap(members, &order, &known, Some("CanBeUsedInEncounters"), Some("DifficultyRating"), diag);
    proof {
        let gap = unknown_in_gap(members@, names, Some("CanBeUsedInEncounters"@), Some("DifficultyRating"@));
        lemma_reported(start, a, gap, views(diag@));
        a = a + gap;
    }
    let fallback = Spanned::defaulted(Number::zero());
    let ghost fallen = fallback;
    let difficulty_rating = decode_number_field(members, "DifficultyRating", fallback, diag);
    proof {
        let found = number_field_findings(members@, "DifficultyRating"@);
        lemma_reported(start, a, found, views(diag@));
        a = a + found;
        lemma_number_held(members@, "DifficultyRating"@, &difficulty_rating, &fallen, default_number(difficulty_rating),);
    }
    report_gap(members, &order, &known, Some("DifficultyRating"), Some("Elite"), diag);
    proof {
        let gap = unknown_in_gap(members@, names, Some("DifficultyRating"@), Some("Elite"@));
        lemma_reported(start, a, gap, views(diag@));
        a = a + gap;
    }
    let fallback = Spanned::defaulted(false);
    let ghost fallen = fallback;
    let elite = decode_flag_field(members, "Elite", fallback, diag);
    proof {
        let found = flag_field_findings(members@, "Elite"@);
        lemma_reported(start, a, found, views(diag@));
        a = a + found;
        lemma_flag_held(members@, "Elite"@, &elite, &fallen, default_flag(elite),);
    }
    report_gap(members, &order, &known, Some("Elite"), Some("IdealSpawnSize"), diag);
    proof {
        let gap = unknown_in_gap(members@, names, Some("Elite"@), Some("IdealSpawnSize"@));
        lemma_reported(start, a, gap, views(diag@));
        a = a + gap;
    }
    let fallback = Spanned::defaulted(0);
    let ghost fallen = fallback;
    let ideal_spawn_size = decode_index_field(members, "IdealSpawnSize", fallback, diag);
    proof {
        let found = index_field_findings(members@, "IdealSpawnSize"@);
        lemma_reported(start, a, found, views(diag@));
        a = a + found;
        lemma_index_held(members@, "IdealSpawnSize"@, &ideal_spawn_size, &fallen, default_index(ideal_spawn_size),);
    }
    report_gap(members, &order, &known, Some("IdealSpawnSize"), Some("MaxSpawnCount"), diag);
    proof {
        let gap = unknown_in_gap(members@, names, Some("IdealSpawnSize"@), Some("MaxSpawnCount"@));
        lemma_reported(start, a, gap, views(diag@));
        a = a + gap;
    }
    let fallback = Spanned::defaulted(0);
    let ghost fallen = fallback;
    let max_spawn_count = decode_index_field(members, "MaxSpawnCount", fallback, diag);
    proof {
        let found = index_field_findings(members@, "MaxSpawnCount"@);
        lemma_reported(start, a, found, views(diag@));
        a = a + found;
        lemma_index_held(members@, "MaxSpawnCount"@, &max_spawn_count, &fallen, default_index(max_spawn_count),);
    }
    report_gap(members, &order, &known, Some("MaxSpawnCount"), Some("MinSpawnCount"), diag);
    proof {
        let gap = unknown_in_gap(members@, names, Some("MaxSpawnCount"@), Some("MinSpawnCount"@));
        lemma_reported(start, a, gap, views(diag@));
        a = a + gap;
    }
    let fallback = Spanned::defaulted(0);
    let ghost fallen = fallback;
    let min_spawn_count = decode_index_field(members, "MinSpawnCount", fallback, diag);
    proof {
        let found = index_field_findings(members@, "MinSpawnCount"@);
        lemma_reported(start, a, found, views(diag@));
        a = a + found;
        lemma_index_held(members@, "MinSpawnCount"@, &min_spawn_count, &fallen, default_index(min_spawn_count),);
    }
    report_gap(members, &order, &known, Some("MinSpawnCount"), Some("PawnStats"), diag);
    proof {
        let gap = unknown_in_gap(members@, names, Some("MinSpawnCount"@), Some("PawnStats"@));
        lemma_reported(start, a, gap, views(diag@));
        a = a + gap;
    }
    let fallback = Spanned::defaulted(PawnStats(Vec::new()));
    let ghost fallen = fallback;
    let pawn_stats = decode_stats_field(members, "PawnStats", fallback, vocabulary, diag);
    proof {
        let found = stats_field_findings(members@, "PawnStats"@, vocabulary);
        lemma_reported(start, a, found, views(diag@));
        a = a + found;
        lemma_stats_held(members@, "PawnStats"@, &pawn_stats, &fallen, default_stats(pawn_stats), vocabulary,);
    }
    report_gap(members, &order, &known, Some("PawnStats"), Some("Rarity"), diag);
    proof {
        let gap = unknown_in_gap(members@, names, Some("PawnStats"@), Some("Rarity"@));
        lemma_reported(start, a, gap, views(diag@));
        a = a + gap;
    }
    let fallback = Spanned::defaulted(0);
    let ghost fallen = fallback;
    let rarity = decode_index_field(members, "Rarity", fallback, diag);
    proof {
        let found = index_field_findings(members@, "Rarity"@);
        lemma_reported(start, a, found, views(diag@));
        a = a + found;
        lemma_index_held(members@, "Rarity"@, &rarity, &fallen, default_index(rarity),);
    }
    report_gap(members, &order, &known, Some("Rarity"), Some("Scale"), diag);
    proof {
        let gap = unknown_in_gap(members@, names, Some("Rarity"@), Some("Scale"@));
        lemma_reported(start, a, gap, views(diag@));
        a = a + gap;
    }
    let fallback = Spanned::defaulted(Number::zero());
    let ghost fallen = fallback;
    let scale = decode_number_field(members, "Scale", fallback, diag);
    proof {
        let found = number_field_findings(members@, "Scale"@);
        lemma_reported(start, a, found, views(diag@));
        a = a + found;
        lemma_number_held(members@, "Scale"@, &scale, &fallen, default_number(scale),);
    }
    report_gap(members, &order, &known, Some("Scale"), Some("SpawnAmountModifier"), diag);
    proof {
        let gap = unknown_in_gap(members@, names, Some("Scale"@), Some("SpawnAmountModifier"@));
        lemma_reported(start, a, gap, views(diag@));
        a = a + gap;
    }
    let fallback = Spanned::defaulted(0);
    let ghost fallen = fallback;
    let spawn_amount_modifier = decode_index_field(members, "SpawnAmountModifier", fallback, diag);
    proof {
        let found = index_field_findings(members@, "SpawnAmountModifier"@);
        lemma_reported(start, a, found, views(diag@));
        a = a + found;
        lemma_index_held(members@, "SpawnAmountModifier"@, &spawn_amount_modifier, &fallen, default_index(spawn_amount_modifier),);
    }
    report_gap(members, &order, &known, Some("SpawnAmountModifier"), Some("SpawnSpread"), diag);
    proof {
        let gap = unknown_in_gap(members@, names, Some("SpawnAmountModifier"@), Some("SpawnSpread"@));
        lemma_reported(start, a, gap, views(diag@));
        a = a + gap;
    }
    let fallback = Spanned::defaulted(Number::zero());
    let ghost fallen = fallback;
    let spawn_spread = decode_number_field(members, "SpawnSpread", fallback, diag);
    proof {
        let found = number_field_findings(members@, "SpawnSpread"@);
        lemma_reported(start, a, found, views(diag@));
        a = a + found;
        lemma_number_held(members@, "SpawnSpread"@, &spawn_spread, &fallen, default_number(spawn_spread),);
    }
    report_gap(members, &order, &known, Some("SpawnSpread"), Some("TimeDilation"), diag);
    proof {
        let gap = unknown_in_gap(members@, names, Some("SpawnSpread"@), Some("TimeDilation"@));
        lemma_reported(start, a, gap, views(diag@));
        a = a + gap;
    }
    let fallback = Spanned::defaulted(Number::zero());
    let ghost fallen = fallback;
    let time_dilation = decode_number_field(members, "TimeDilation", fallback, diag);
    proof {
        let found = number_field_findings(members@, "TimeDilation"@);
        lemma_reported(start, a, found, views(diag@));
        a = a + found;
        lemma_number_held(members@, "TimeDilation"@, &time_dilation, &fallen, default_number(time_dilation),);
    }
    report_gap(members, &order, &known, Some("TimeDilation"), None, diag);
    proof {
        let gap = unknown_in_gap(members@, names, Some("TimeDilation"@), None);
        lemma_reported(start, a, gap, views(diag@));
        a = a + gap;
    }
    EnemyDescriptor {
        base,
        can_be_used_for_constant_pressure,
        can_be_used_in_encounters,
        difficulty_rating,
        elite,
        ideal_spawn_size,
        max_spawn_count,
        min_spawn_count,
        pawn_stats,
        rarity,
        scale,
        spawn_amount_modifier,
        spawn_spread,
        time_dilation,
    }
}

/// What `node` reports as an enemy descriptor: where it is an object, what its members
/// report, and else a diagnostic that names its kind.
pub open spec fn descriptor_findings(node: &Spanned<Json>, vocabulary: &Vocabulary) -> Seq<DiagnosticView> {
    match node.val {
        Json::Object(members) => descriptor_object_findings(members@, vocabulary),
        _ => seq![mismatch(node, "object"@)],
    }
}

/// `out` is what the object `node` gives as an enemy descriptor, with its span.
pub open spec fn descriptor_value(node: &Spanned<Json>, out: &Spanned<EnemyDescriptor>, vocabulary: &Vocabulary) -> bool {
    node.val matches Json::Object(members) && out.span == node.span && descriptor_object_value(
        members@,
        &out.val, vocabulary,
    )
}

/// Decodes `node` as an enemy descriptor: there is a value where `node` is an object.
pub fn decode_descriptor(
    node: &Spanned<Json>,
    vocabulary: &Vocabulary,
    diag: &mut Vec<Diagnostic>,
) -> (r: Option<Spanned<EnemyDescriptor>>)
    ensures
        views(final(diag)@) == views(old(diag)@) + descriptor_findings(node, vocabulary),
        match r {
            Some(out) => node.val is Object && descriptor_value(node, &out, vocabulary),
            None => !(node.val is Object),
        },
{
    match &node.val {
        Json::Object(members) => {
            let value = decode_descriptor_object(members, vocabulary, diag);
            Some(Spanned::new(node.span, value))
        },
        _ => {
            report(diag, expectation(node.span, "object", node.val.kind_desc()));
            assert(views(diag@) =~= views(old(diag)@) + descriptor_findings(node, vocabulary));
            None
        },
    }
}

} // verus!
