//! The decoder: from the parse tree of a document to the Custom
//! Difficulty that it describes, with a diagnostic for each part of the
//! tree that the schema does not allow.

use crate::bins::{
    decode_index_bins_field, decode_number_bins_field, index_bins_field_findings, index_bins_held,
    lemma_index_bins_held, lemma_number_bins_held, number_bins_field_findings, number_bins_held,
};
use crate::config::{names_view, Vocabulary};
use crate::custom_difficulty::{
    ArrayOrSingleItem, CustomDifficulty, default_index, default_index_range, default_indices, default_list,
    default_mule, default_number, default_numbers, default_pool, default_text, EnemyPool, EscortMule, Range,
};
use crate::descriptors::{
    decode_descriptors_field, descriptors_field_findings, descriptors_held, lemma_descriptors_held,
};
use crate::diagnostic::{Diagnostic, DiagnosticView, views};
use crate::fields::{
    decode_index_field, decode_indices_field, decode_number_field, decode_numbers_field, decode_text_field,
    decode_texts_field, index_field_findings, index_held, indices_field_findings, indices_held,
    lemma_index_held, lemma_indices_held, lemma_number_held, lemma_numbers_held, lemma_text_held,
    lemma_texts_held, number_field_findings, number_held, numbers_field_findings, numbers_held,
    text_field_findings, text_held, texts_field_findings, texts_held,
};
use crate::json::Json;
use crate::laws::lemma_no_repetition_no_error;
use crate::members::{
    duplicate_findings, lemma_known_members_in_no_gap, lemma_reported, lemma_sorted_from_adjacent,
    lemma_visit_order_places, Member, names_sorted, report_duplicates, report_gap, sorted_members,
    unknown_in_gap, visited,
};
use crate::text::{lemma_ascii_order, str_lt};
use crate::number::Number;
use crate::objects::{
    decode_index_range_field, decode_mule_field, decode_pool_field, index_range_field_findings,
    index_range_held, lemma_index_range_held, lemma_mule_held, lemma_pool_held, mule_field_findings,
    mule_held, pool_field_findings, pool_held,
};
use crate::span::Spanned;
use vstd::prelude::*;
use vstd::string::*;

verus! {

/// The keys of the document.
pub open spec fn document_names() -> Seq<Seq<char>> {
    seq![
        "AttackCooldownModifier"@,
        "CommonEnemies"@,
        "Description"@,
        "DisruptiveEnemies"@,
        "DisruptiveEnemyPoolCount"@,
        "EliteCooldown"@,
        "EncounterDifficulty"@,
        "EnemyCountModifier"@,
        "EnemyDamageModifier"@,
        "EnemyDamageResistance"@,
        "EnemyDescriptors"@,
        "EnemyDiversity"@,
        "EnemyNormalWaveDifficulty"@,
        "EnemyNormalWaveInterval"@,
        "EnemyPool"@,
        "EnemyWaveInterval"@,
        "EnvironmentalDamageModifier"@,
        "EscortMule"@,
        "ExtraLargeEnemyDamageResistance"@,
        "ExtraLargeEnemyDamageResistanceB"@,
        "ExtraLargeEnemyDamageResistanceC"@,
        "ExtraLargeEnemyDamageResistanceD"@,
        "FriendlyFireModifier"@,
        "HazardBonus"@,
        "HealthRegenerationMax"@,
        "MaxActiveCritters"@,
        "MaxActiveElites"@,
        "MaxActiveEnemies"@,
        "MaxActiveSwarmers"@,
        "MinPoolSize"@,
        "Name"@,
        "PointExtractionScalar"@,
        "ProjectileSpeedModifier"@,
        "ResupplyCost"@,
        "ReviveHealthRatio"@,
        "SeasonalEvents"@,
        "SmallEnemyDamageResistance"@,
        "SpecialEnemies"@,
        "SpeedModifier"@,
        "StartingNitra"@,
        "StationaryDifficulty"@,
        "StationaryEnemies"@,
        "StationaryEnemyDiversity"@,
        "VeteranLarge"@,
        "VeteranNormal"@,
        "WaveStartDelayScale"@,
    ]
}

/// The keys of the document.
pub fn document_keys() -> (keys: Vec<String>)
    ensures
        names_view(keys@) == document_names(),
{
    let mut keys: Vec<String> = Vec::new();
    keys.push(String::from_str("AttackCooldownModifier"));
    keys.push(String::from_str("CommonEnemies"));
    keys.push(String::from_str("Description"));
    keys.push(String::from_str("DisruptiveEnemies"));
    keys.push(String::from_str("DisruptiveEnemyPoolCount"));
    keys.push(String::from_str("EliteCooldown"));
    keys.push(String::from_str("EncounterDifficulty"));
    keys.push(String::from_str("EnemyCountModifier"));
    keys.push(String::from_str("EnemyDamageModifier"));
    keys.push(String::from_str("EnemyDamageResistance"));
    keys.push(String::from_str("EnemyDescriptors"));
    keys.push(String::from_str("EnemyDiversity"));
    keys.push(String::from_str("EnemyNormalWaveDifficulty"));
    keys.push(String::from_str("EnemyNormalWaveInterval"));
    keys.push(String::from_str("EnemyPool"));
    keys.push(String::from_str("EnemyWaveInterval"));
    keys.push(String::from_str("EnvironmentalDamageModifier"));
    keys.push(String::from_str("EscortMule"));
    keys.push(String::from_str("ExtraLargeEnemyDamageResistance"));
    keys.push(String::from_str("ExtraLargeEnemyDamageResistanceB"));
    keys.push(String::from_str("ExtraLargeEnemyDamageResistanceC"));
    keys.push(String::from_str("ExtraLargeEnemyDamageResistanceD"));
    keys.push(String::from_str("FriendlyFireModifier"));
    keys.push(String::from_str("HazardBonus"));
    keys.push(String::from_str("HealthRegenerationMax"));
    keys.push(String::from_str("MaxActiveCritters"));
    keys.push(String::from_str("MaxActiveElites"));
    keys.push(String::from_str("MaxActiveEnemies"));
    keys.push(String::from_str("MaxActiveSwarmers"));
    keys.push(String::from_str("MinPoolSize"));
    keys.push(String::from_str("Name"));
    keys.push(String::from_str("PointExtractionScalar"));
    keys.push(String::from_str("ProjectileSpeedModifier"));
    keys.push(String::from_str("ResupplyCost"));
    keys.push(String::from_str("ReviveHealthRatio"));
    keys.push(String::from_str("SeasonalEvents"));
    keys.push(String::from_str("SmallEnemyDamageResistance"));
    keys.push(String::from_str("SpecialEnemies"));
    keys.push(String::from_str("SpeedModifier"));
    keys.push(String::from_str("StartingNitra"));
    keys.push(String::from_str("StationaryDifficulty"));
    keys.push(String::from_str("StationaryEnemies"));
    keys.push(String::from_str("StationaryEnemyDiversity"));
    keys.push(String::from_str("VeteranLarge"));
    keys.push(String::from_str("VeteranNormal"));
    keys.push(String::from_str("WaveStartDelayScale"));
    assert(names_view(keys@) =~= document_names());
    keys
}

/// What the members of the document report: the members that repeat a key, in
/// the order of the input; then, in the order of the keys, what each member
/// that the schema knows reports of its value, and each member that the
/// schema does not know.
#[verifier::opaque]
pub open spec fn document_object_findings(members: Seq<Member>, vocabulary: &Vocabulary) -> Seq<DiagnosticView> {
    let known = document_names();
    let a = duplicate_findings(members, members.len() as int);
    let a = a + unknown_in_gap(members, known, None, Some("AttackCooldownModifier"@));
    let a = a + number_field_findings(members, "AttackCooldownModifier"@);
    let a = a + unknown_in_gap(members, known, Some("AttackCooldownModifier"@), Some("CommonEnemies"@));
    let a = a + pool_field_findings(members, "CommonEnemies"@);
    let a = a + unknown_in_gap(members, known, Some("CommonEnemies"@), Some("Description"@));
    let a = a + text_field_findings(members, "Description"@);
    let a = a + unknown_in_gap(members, known, Some("Description"@), Some("DisruptiveEnemies"@));
    let a = a + pool_field_findings(members, "DisruptiveEnemies"@);
    let a = a + unknown_in_gap(members, known, Some("DisruptiveEnemies"@), Some("DisruptiveEnemyPoolCount"@));
    let a = a + index_range_field_findings(members, "DisruptiveEnemyPoolCount"@);
    let a = a + unknown_in_gap(members, known, Some("DisruptiveEnemyPoolCount"@), Some("EliteCooldown"@));
    let a = a + index_field_findings(members, "EliteCooldown"@);
    let a = a + unknown_in_gap(members, known, Some("EliteCooldown"@), Some("EncounterDifficulty"@));
    let a = a + index_bins_field_findings(members, "EncounterDifficulty"@);
    let a = a + unknown_in_gap(members, known, Some("EncounterDifficulty"@), Some("EnemyCountModifier"@));
    let a = a + numbers_field_findings(members, "EnemyCountModifier"@);
    let a = a + unknown_in_gap(members, known, Some("EnemyCountModifier"@), Some("EnemyDamageModifier"@));
    let a = a + numbers_field_findings(members, "EnemyDamageModifier"@);
    let a = a + unknown_in_gap(members, known, Some("EnemyDamageModifier"@), Some("EnemyDamageResistance"@));
    let a = a + numbers_field_findings(members, "EnemyDamageResistance"@);
    let a = a + unknown_in_gap(members, known, Some("EnemyDamageResistance"@), Some("EnemyDescriptors"@));
    let a = a + descriptors_field_findings(members, "EnemyDescriptors"@, vocabulary);
    let a = a + unknown_in_gap(members, known, Some("EnemyDescriptors"@), Some("EnemyDiversity"@));
    let a = a + index_bins_field_findings(members, "EnemyDiversity"@);
    let a = a + unknown_in_gap(members, known, Some("EnemyDiversity"@), Some("EnemyNormalWaveDifficulty"@));
    let a = a + index_bins_field_findings(members, "EnemyNormalWaveDifficulty"@);
    let a = a + unknown_in_gap(members, known, Some("EnemyNormalWaveDifficulty"@), Some("EnemyNormalWaveInterval"@));
    let a = a + index_bins_field_findings(members, "EnemyNormalWaveInterval"@);
    let a = a + unknown_in_gap(members, known, Some("EnemyNormalWaveInterval"@), Some("EnemyPool"@));
    let a = a + pool_field_findings(members, "EnemyPool"@);
    let a = a + unknown_in_gap(members, known, Some("EnemyPool"@), Some("EnemyWaveInterval"@));
    let a = a + index_bins_field_findings(members, "EnemyWaveInterval"@);
    let a = a + unknown_in_gap(members, known, Some("EnemyWaveInterval"@), Some("EnvironmentalDamageModifier"@));
    let a = a + number_field_findings(members, "EnvironmentalDamageModifier"@);
    let a = a + unknown_in_gap(members, known, Some("EnvironmentalDamageModifier"@), Some("EscortMule"@));
    let a = a + mule_field_findings(members, "EscortMule"@);
    let a = a + unknown_in_gap(members, known, Some("EscortMule"@), Some("ExtraLargeEnemyDamageResistance"@));
    let a = a + numbers_field_findings(members, "ExtraLargeEnemyDamageResistance"@);
    let a = a + unknown_in_gap(members, known, Some("ExtraLargeEnemyDamageResistance"@), Some("ExtraLargeEnemyDamageResistanceB"@));
    let a = a + numbers_field_findings(members, "ExtraLargeEnemyDamageResistanceB"@);
    let a = a + unknown_in_gap(members, known, Some("ExtraLargeEnemyDamageResistanceB"@), Some("ExtraLargeEnemyDamageResistanceC"@));
    let a = a + numbers_field_findings(members, "ExtraLargeEnemyDamageResistanceC"@);
    let a = a + unknown_in_gap(members, known, Some("ExtraLargeEnemyDamageResistanceC"@), Some("ExtraLargeEnemyDamageResistanceD"@));
    let a = a + numbers_field_findings(members, "ExtraLargeEnemyDamageResistanceD"@);
    let a = a + unknown_in_gap(members, known, Some("ExtraLargeEnemyDamageResistanceD"@), Some("FriendlyFireModifier"@));
    let a = a + number_field_findings(members, "FriendlyFireModifier"@);
    let a = a + unknown_in_gap(members, known, Some("FriendlyFireModifier"@), Some("HazardBonus"@));
    let a = a + number_field_findings(members, "HazardBonus"@);
    let a = a + unknown_in_gap(members, known, Some("HazardBonus"@), Some("HealthRegenerationMax"@));
    let a = a + number_field_findings(members, "HealthRegenerationMax"@);
    let a = a + unknown_in_gap(members, known, Some("HealthRegenerationMax"@), Some("MaxActiveCritters"@));
    let a = a + indices_field_findings(members, "MaxActiveCritters"@);
    let a = a + unknown_in_gap(members, known, Some("MaxActiveCritters"@), Some("MaxActiveElites"@));
    let a = a + index_field_findings(members, "MaxActiveElites"@);
    let a = a + unknown_in_gap(members, known, Some("MaxActiveElites"@), Some("MaxActiveEnemies"@));
    let a = a + indices_field_findings(members, "MaxActiveEnemies"@);
    let a = a + unknown_in_gap(members, known, Some("MaxActiveEnemies"@), Some("MaxActiveSwarmers"@));
    let a = a + indices_field_findings(members, "MaxActiveSwarmers"@);
    let a = a + unknown_in_gap(members, known, Some("MaxActiveSwarmers"@), Some("MinPoolSize"@));
    let a = a + index_range_field_findings(members, "MinPoolSize"@);
    let a = a + unknown_in_gap(members, known, Some("MinPoolSize"@), Some("Name"@));
    let a = a + text_field_findings(members, "Name"@);
    let a = a + unknown_in_gap(members, known, Some("Name"@), Some("PointExtractionScalar"@));
    let a = a + number_field_findings(members, "PointExtractionScalar"@);
    let a = a + unknown_in_gap(members, known, Some("PointExtractionScalar"@), Some("ProjectileSpeedModifier"@));
    let a = a + number_field_findings(members, "ProjectileSpeedModifier"@);
    let a = a + unknown_in_gap(members, known, Some("ProjectileSpeedModifier"@), Some("ResupplyCost"@));
    let a = a + numbers_field_findings(members, "ResupplyCost"@);
    let a = a + unknown_in_gap(members, known, Some("ResupplyCost"@), Some("ReviveHealthRatio"@));
    let a = a + number_field_findings(members, "ReviveHealthRatio"@);
    let a = a + unknown_in_gap(members, known, Some("ReviveHealthRatio"@), Some("SeasonalEvents"@));
    let a = a + texts_field_findings(members, "SeasonalEvents"@);
    let a = a + unknown_in_gap(members, known, Some("SeasonalEvents"@), Some("SmallEnemyDamageResistance"@));
    let a = a + numbers_field_findings(members, "SmallEnemyDamageResistance"@);
    let a = a + unknown_in_gap(members, known, Some("SmallEnemyDamageResistance"@), Some("SpecialEnemies"@));
    let a = a + pool_field_findings(members, "SpecialEnemies"@);
    let a = a + unknown_in_gap(members, known, Some("SpecialEnemies"@), Some("SpeedModifier"@));
    let a = a + number_field_findings(members, "SpeedModifier"@);
    let a = a + unknown_in_gap(members, known, Some("SpeedModifier"@), Some("StartingNitra"@));
    let a = a + indices_field_findings(members, "StartingNitra"@);
    let a = a + unknown_in_gap(members, known, Some("StartingNitra"@), Some("StationaryDifficulty"@));
    let a = a + index_bins_field_findings(members, "StationaryDifficulty"@);
    let a = a + unknown_in_gap(members, known, Some("StationaryDifficulty"@), Some("StationaryEnemies"@));
    let a = a + pool_field_findings(members, "StationaryEnemies"@);
    let a = a + unknown_in_gap(members, known, Some("StationaryEnemies"@), Some("StationaryEnemyDiversity"@));
    let a = a + index_bins_field_findings(members, "StationaryEnemyDiversity"@);
    let a = a + unknown_in_gap(members, known, Some("StationaryEnemyDiversity"@), Some("VeteranLarge"@));
    let a = a + number_bins_field_findings(members, "VeteranLarge"@);
    let a = a + unknown_in_gap(members, known, Some("VeteranLarge"@), Some("VeteranNormal"@));
    let a = a + number_bins_field_findings(members, "VeteranNormal"@);
    let a = a + unknown_in_gap(members, known, Some("VeteranNormal"@), Some("WaveStartDelayScale"@));
    let a = a + number_field_findings(members, "WaveStartDelayScale"@);
    a + unknown_in_gap(members, known, Some("WaveStartDelayScale"@), None)
}

/// `out` is what the members of the document give: each field has the value of
/// its member, where that is accepted, and else its default.
#[verifier::opaque]
pub open spec fn document_object_value(members: Seq<Member>, out: &CustomDifficulty, vocabulary: &Vocabulary) -> bool {
    &&& number_held(
        members,
        "AttackCooldownModifier"@,
        &out.attack_cooldown_modifier,
        default_number(out.attack_cooldown_modifier),
    )
    &&& pool_held(
        members,
        "CommonEnemies"@,
        &out.common_enemies,
        default_pool(out.common_enemies),
    )
    &&& text_held(
        members,
        "Description"@,
        &out.description,
        default_text(out.description),
    )
    &&& pool_held(
        members,
        "DisruptiveEnemies"@,
        &out.disruptive_enemies,
        default_pool(out.disruptive_enemies),
    )
    &&& index_range_held(
        members,
        "DisruptiveEnemyPoolCount"@,
        &out.disruptive_enemy_pool_count,
        default_index_range(out.disruptive_enemy_pool_count),
    )
    &&& index_held(
        members,
        "EliteCooldown"@,
        &out.elite_cooldown,
        default_index(out.elite_cooldown),
    )
    &&& index_bins_held(
        members,
        "EncounterDifficulty"@,
        &out.encounter_difficulty,
        default_list(out.encounter_difficulty),
    )
    &&& numbers_held(
        members,
        "EnemyCountModifier"@,
        &out.enemy_count_modifier,
        default_numbers(out.enemy_count_modifier),
    )
    &&& numbers_held(
        members,
        "EnemyDamageModifier"@,
        &out.enemy_damage_modifier,
        default_numbers(out.enemy_damage_modifier),
    )
    &&& numbers_held(
        members,
        "EnemyDamageResistance"@,
        &out.enemy_damage_resistance,
        default_numbers(out.enemy_damage_resistance),
    )
    &&& descriptors_held(
        members,
        "EnemyDescriptors"@,
        &out.enemy_descriptors,
        default_list(out.enemy_descriptors),
        vocabulary,
    )
    &&& index_bins_held(
        members,
        "EnemyDiversity"@,
        &out.enemy_diversity,
        default_list(out.enemy_diversity),
    )
    &&& index_bins_held(
        members,
        "EnemyNormalWaveDifficulty"@,
        &out.enemy_normal_wave_difficulty,
        default_list(out.enemy_normal_wave_difficulty),
    )
    &&& index_bins_held(
        members,
        "EnemyNormalWaveInterval"@,
        &out.enemy_normal_wave_interval,
        default_list(out.enemy_normal_wave_interval),
    )
    &&& pool_held(
        members,
        "EnemyPool"@,
        &out.enemy_pool,
        default_pool(out.enemy_pool),
    )
    &&& index_bins_held(
        members,
        "EnemyWaveInterval"@,
        &out.enemy_wave_interval,
        default_list(out.enemy_wave_interval),
    )
    &&& number_held(
        members,
        "EnvironmentalDamageModifier"@,
        &out.environmental_damage_modifier,
        default_number(out.environmental_damage_modifier),
    )
    &&& mule_held(
        members,
        "EscortMule"@,
        &out.escort_mule,
        default_mule(out.escort_mule),
    )
    &&& numbers_held(
        members,
        "ExtraLargeEnemyDamageResistance"@,
        &out.extra_large_enemy_damage_resistance,
        default_numbers(out.extra_large_enemy_damage_resistance),
    )
    &&& numbers_held(
        members,
        "ExtraLargeEnemyDamageResistanceB"@,
        &out.extra_large_enemy_damage_resistance_b,
        default_numbers(out.extra_large_enemy_damage_resistance_b),
    )
    &&& numbers_held(
        members,
        "ExtraLargeEnemyDamageResistanceC"@,
        &out.extra_large_enemy_damage_resistance_c,
        default_numbers(out.extra_large_enemy_damage_resistance_c),
    )
    &&& numbers_held(
        members,
        "ExtraLargeEnemyDamageResistanceD"@,
        &out.extra_large_enemy_damage_resistance_d,
        default_numbers(out.extra_large_enemy_damage_resistance_d),
    )
    &&& number_held(
        members,
        "FriendlyFireModifier"@,
        &out.friendly_fire_modifier,
        default_number(out.friendly_fire_modifier),
    )
    &&& number_held(
        members,
        "HazardBonus"@,
        &out.hazard_bonus,
        default_number(out.hazard_bonus),
    )
    &&& number_held(
        members,
        "HealthRegenerationMax"@,
        &out.health_regeneration_max,
        default_number(out.health_regeneration_max),
    )
    &&& indices_held(
        members,
        "MaxActiveCritters"@,
        &out.max_active_critters,
        default_indices(out.max_active_critters),
    )
    &&& index_held(
        members,
        "MaxActiveElites"@,
        &out.max_active_elites,
        default_index(out.max_active_elites),
    )
    &&& indices_held(
        members,
        "MaxActiveEnemies"@,
        &out.max_active_enemies,
        default_indices(out.max_active_enemies),
    )
    &&& indices_held(
        members,
        "MaxActiveSwarmers"@,
        &out.max_active_swarmers,
        default_indices(out.max_active_swarmers),
    )
    &&& index_range_held(
        members,
        "MinPoolSize"@,
        &out.min_pool_size,
        default_index_range(out.min_pool_size),
    )
    &&& text_held(
        members,
        "Name"@,
        &out.name,
        default_text(out.name),
    )
    &&& number_held(
        members,
        "PointExtractionScalar"@,
        &out.point_extraction_scalar,
        default_number(out.point_extraction_scalar),
    )
    &&& number_held(
        members,
        "ProjectileSpeedModifier"@,
        &out.projectile_speed_modifier,
        default_number(out.projectile_speed_modifier),
    )
    &&& numbers_held(
        members,
        "ResupplyCost"@,
        &out.resupply_cost,
        default_numbers(out.resupply_cost),
    )
    &&& number_held(
        members,
        "ReviveHealthRatio"@,
        &out.revive_health_ratio,
        default_number(out.revive_health_ratio),
    )
    &&& texts_held(
        members,
        "SeasonalEvents"@,
        &out.seasonal_events,
        default_list(out.seasonal_events),
    )
    &&& numbers_held(
        members,
        "SmallEnemyDamageResistance"@,
        &out.small_enemy_damage_resistance,
        default_numbers(out.small_enemy_damage_resistance),
    )
    &&& pool_held(
        members,
        "SpecialEnemies"@,
        &out.special_enemies,
        default_pool(out.special_enemies),
    )
    &&& number_held(
        members,
        "SpeedModifier"@,
        &out.speed_modifier,
        default_number(out.speed_modifier),
    )
    &&& indices_held(
        members,
        "StartingNitra"@,
        &out.starting_nitra,
        default_indices(out.starting_nitra),
    )
    &&& index_bins_held(
        members,
        "StationaryDifficulty"@,
        &out.stationary_difficulty,
        default_list(out.stationary_difficulty),
    )
    &&& pool_held(
        members,
        "StationaryEnemies"@,
        &out.stationary_enemies,
        default_pool(out.stationary_enemies),
    )
    &&& index_bins_held(
        members,
        "StationaryEnemyDiversity"@,
        &out.stationary_enemy_diversity,
        default_list(out.stationary_enemy_diversity),
    )
    &&& number_bins_held(
        members,
        "VeteranLarge"@,
        &out.veteran_large,
        default_list(out.veteran_large),
    )
    &&& number_bins_held(
        members,
        "VeteranNormal"@,
        &out.veteran_normal,
        default_list(out.veteran_normal),
    )
    &&& number_held(
        members,
        "WaveStartDelayScale"@,
        &out.wave_start_delay_scale,
        default_number(out.wave_start_delay_scale),
    )
}

/// Decodes the members of the document.
#[verifier::rlimit(100)]
#[verifier::spinoff_prover]
pub fn decode_document_object(
    members: &Vec<Member>,
    vocabulary: &Vocabulary,
    diag: &mut Vec<Diagnostic>,
) -> (out: CustomDifficulty)
    ensures
        views(final(diag)@) == views(old(diag)@) + document_object_findings(members@, vocabulary),
        document_object_value(members@, &out, vocabulary),
{
    reveal(document_object_findings);
    reveal(document_object_value);
    let ghost start = views(diag@);
    let ghost names = document_names();
    let known = document_keys();
    report_duplicates(members, diag);
    let ghost mut a = duplicate_findings(members@, members@.len() as int);
    let order = sorted_members(members);
    report_gap(members, &order, &known, None, Some("AttackCooldownModifier"), diag);
    proof {
        let gap = unknown_in_gap(members@, names, None, Some("AttackCooldownModifier"@));
        lemma_reported(start, a, gap, views(diag@));
        a = a + gap;
    }
    let fallback = Spanned::defaulted(Number::zero());
    let ghost fallen = fallback;
    let attack_cooldown_modifier = decode_number_field(members, "AttackCooldownModifier", fallback, diag);
    proof {
        let found = number_field_findings(members@, "AttackCooldownModifier"@);
        lemma_reported(start, a, found, views(diag@));
        a = a + found;
        lemma_number_held(members@, "AttackCooldownModifier"@, &attack_cooldown_modifier, &fallen, default_number(attack_cooldown_modifier),);
    }
    report_gap(members, &order, &known, Some("AttackCooldownModifier"), Some("CommonEnemies"), diag);
    proof {
        let gap = unknown_in_gap(members@, names, Some("AttackCooldownModifier"@), Some("CommonEnemies"@));
        lemma_reported(start, a, gap, views(diag@));
        a = a + gap;
    }
    let fallback = Spanned::defaulted(EnemyPool::default());
    let ghost fallen = fallback;
    let common_enemies = decode_pool_field(members, "CommonEnemies", fallback, diag);
    proof {
        let found = pool_field_findings(members@, "CommonEnemies"@);
        lemma_reported(start, a, found, views(diag@));
        a = a + found;
        lemma_pool_held(members@, "CommonEnemies"@, &common_enemies, &fallen, default_pool(common_enemies),);
    }
    report_gap(members, &order, &known, Some("CommonEnemies"), Some("Description"), diag);
    proof {
        let gap = unknown_in_gap(members@, names, Some("CommonEnemies"@), Some("Description"@));
        lemma_reported(start, a, gap, views(diag@));
        a = a + gap;
    }
    let fallback = Spanned::defaulted(String::new());
    let ghost fallen = fallback;
    let description = decode_text_field(members, "Description", fallback, diag);
    proof {
        let found = text_field_findings(members@, "Description"@);
        lemma_reported(start, a, found, views(diag@));
        a = a + found;
        lemma_text_held(members@, "Description"@, &description, &fallen, default_text(description),);
    }
    report_gap(members, &order, &known, Some("Description"), Some("DisruptiveEnemies"), diag);
    proof {
        let gap = unknown_in_gap(members@, names, Some("Description"@), Some("DisruptiveEnemies"@));
        lemma_reported(start, a, gap, views(diag@));
        a = a + gap;
    }
    let fallback = Spanned::defaulted(EnemyPool::default());
    let ghost fallen = fallback;
    let disruptive_enemies = decode_pool_field(members, "DisruptiveEnemies", fallback, diag);
    proof {
        let found = pool_field_findings(members@, "DisruptiveEnemies"@);
        lemma_reported(start, a, found, views(diag@));
        a = a + found;
        lemma_pool_held(members@, "DisruptiveEnemies"@, &disruptive_enemies, &fallen, default_pool(disruptive_enemies),);
    }
    report_gap(members, &order, &known, Some("DisruptiveEnemies"), Some("DisruptiveEnemyPoolCount"), diag);
    proof {
        let gap = unknown_in_gap(members@, names, Some("DisruptiveEnemies"@), Some("DisruptiveEnemyPoolCount"@));
        lemma_reported(start, a, gap, views(diag@));
        a = a + gap;
    }
    let fallback = Spanned::defaulted(Range::new(Spanned::defaulted(0), Spanned::defaulted(0)));
    let ghost fallen = fallback;
    let disruptive_enemy_pool_count = decode_index_range_field(members, "DisruptiveEnemyPoolCount", fallback, diag);
    proof {
        let found = index_range_field_findings(members@, "DisruptiveEnemyPoolCount"@);
        lemma_reported(start, a, found, views(diag@));
        a = a + found;
        lemma_index_range_held(members@, "DisruptiveEnemyPoolCount"@, &disruptive_enemy_pool_count, &fallen, default_index_range(disruptive_enemy_pool_count),);
    }
    report_gap(members, &order, &known, Some("DisruptiveEnemyPoolCount"), Some("EliteCooldown"), diag);
    proof {
        let gap = unknown_in_gap(members@, names, Some("DisruptiveEnemyPoolCount"@), Some("EliteCooldown"@));
        lemma_reported(start, a, gap, views(diag@));
        a = a + gap;
    }
    let fallback = Spanned::defaulted(0);
    let ghost fallen = fallback;
    let elite_cooldown = decode_index_field(members, "EliteCooldown", fallback, diag);
    proof {
        let found = index_field_findings(members@, "EliteCooldown"@);
        lemma_reported(start, a, found, views(diag@));
        a = a + found;
        lemma_index_held(members@, "EliteCooldown"@, &elite_cooldown, &fallen, default_index(elite_cooldown),);
    }
    report_gap(members, &order, &known, Some("EliteCooldown"), Some("EncounterDifficulty"), diag);
    proof {
        let gap = unknown_in_gap(members@, names, Some("EliteCooldown"@), Some("EncounterDifficulty"@));
        lemma_reported(start, a, gap, views(diag@));
        a = a + gap;
    }
    let fallback = Spanned::defaulted(Vec::new());
    let ghost fallen = fallback;
    let encounter_difficulty = decode_index_bins_field(members, "EncounterDifficulty", fallback, diag);
    proof {
        let found = index_bins_field_findings(members@, "EncounterDifficulty"@);
        lemma_reported(start, a, found, views(diag@));
        a = a + found;
        lemma_index_bins_held(members@, "EncounterDifficulty"@, &encounter_difficulty, &fallen, default_list(encounter_difficulty),);
    }
    report_gap(members, &order, &known, Some("EncounterDifficulty"), Some("EnemyCountModifier"), diag);
    proof {
        let gap = unknown_in_gap(members@, names, Some("EncounterDifficulty"@), Some("EnemyCountModifier"@));
        lemma_reported(start, a, gap, views(diag@));
        a = a + gap;
    }
    let fallback = Spanned::defaulted(ArrayOrSingleItem::SingleItem(Number::zero()));
    let ghost fallen = fallback;
    let enemy_count_modifier = decode_numbers_field(members, "EnemyCountModifier", fallback, diag);
    proof {
        let found = numbers_field_findings(members@, "EnemyCountModifier"@);
        lemma_reported(start, a, found, views(diag@));
        a = a + found;
        lemma_numbers_held(members@, "EnemyCountModifier"@, &enemy_count_modifier, &fallen, default_numbers(enemy_count_modifier),);
    }
    report_gap(members, &order, &known, Some("EnemyCountModifier"), Some("EnemyDamageModifier"), diag);
    proof {
        let gap = unknown_in_gap(members@, names, Some("EnemyCountModifier"@), Some("EnemyDamageModifier"@));
        lemma_reported(start, a, gap, views(diag@));
        a = a + gap;
    }
    let fallback = Spanned::defaulted(ArrayOrSingleItem::SingleItem(Number::zero()));
    let ghost fallen = fallback;
    let enemy_damage_modifier = decode_numbers_field(members, "EnemyDamageModifier", fallback, diag);
    proof {
        let found = numbers_field_findings(members@, "EnemyDamageModifier"@);
        lemma_reported(start, a, found, views(diag@));
        a = a + found;
        lemma_numbers_held(members@, "EnemyDamageModifier"@, &enemy_damage_modifier, &fallen, default_numbers(enemy_damage_modifier),);
    }
    report_gap(members, &order, &known, Some("EnemyDamageModifier"), Some("EnemyDamageResistance"), diag);
    proof {
        let gap = unknown_in_gap(members@, names, Some("EnemyDamageModifier"@), Some("EnemyDamageResistance"@));
        lemma_reported(start, a, gap, views(diag@));
        a = a + gap;
    }
    let fallback = Spanned::defaulted(ArrayOrSingleItem::SingleItem(Number::zero()));
    let ghost fallen = fallback;
    let enemy_damage_resistance = decode_numbers_field(members, "EnemyDamageResistance", fallback, diag);
    proof {
        let found = numbers_field_findings(members@, "EnemyDamageResistance"@);
        lemma_reported(start, a, found, views(diag@));
        a = a + found;
        lemma_numbers_held(members@, "EnemyDamageResistance"@, &enemy_damage_resistance, &fallen, default_numbers(enemy_damage_resistance),);
    }
    report_gap(members, &order, &known, Some("EnemyDamageResistance"), Some("EnemyDescriptors"), diag);
    proof {
        let gap = unknown_in_gap(members@, names, Some("EnemyDamageResistance"@), Some("EnemyDescriptors"@));
        lemma_reported(start, a, gap, views(diag@));
        a = a + gap;
    }
    let fallback = Spanned::defaulted(Vec::new());
    let ghost fallen = fallback;
    let enemy_descriptors = decode_descriptors_field(members, "EnemyDescriptors", fallback, vocabulary, diag);
    proof {
        let found = descriptors_field_findings(members@, "EnemyDescriptors"@, vocabulary);
        lemma_reported(start, a, found, views(diag@));
        a = a + found;
        lemma_descriptors_held(members@, "EnemyDescriptors"@, &enemy_descriptors, &fallen, default_list(enemy_descriptors), vocabulary,);
    }
    report_gap(members, &order, &known, Some("EnemyDescriptors"), Some("EnemyDiversity"), diag);
    proof {
        let gap = unknown_in_gap(members@, names, Some("EnemyDescriptors"@), Some("EnemyDiversity"@));
        lemma_reported(start, a, gap, views(diag@));
        a = a + gap;
    }
    let fallback = Spanned::defaulted(Vec::new());
    let ghost fallen = fallback;
    let enemy_diversity = decode_index_bins_field(members, "EnemyDiversity", fallback, diag);
    proof {
        let found = index_bins_field_findings(members@, "EnemyDiversity"@);
        lemma_reported(start, a, found, views(diag@));
        a = a + found;
        lemma_index_bins_held(members@, "EnemyDiversity"@, &enemy_diversity, &fallen, default_list(enemy_diversity),);
    }
    report_gap(members, &order, &known, Some("EnemyDiversity"), Some("EnemyNormalWaveDifficulty"), diag);
    proof {
        let gap = unknown_in_gap(members@, names, Some("EnemyDiversity"@), Some("EnemyNormalWaveDifficulty"@));
        lemma_reported(start, a, gap, views(diag@));
        a = a + gap;
    }
    let fallback = Spanned::defaulted(Vec::new());
    let ghost fallen = fallback;
    let enemy_normal_wave_difficulty = decode_index_bins_field(members, "EnemyNormalWaveDifficulty", fallback, diag);
    proof {
        let found = index_bins_field_findings(members@, "EnemyNormalWaveDifficulty"@);
        lemma_reported(start, a, found, views(diag@));
        a = a + found;
        lemma_index_bins_held(members@, "EnemyNormalWaveDifficulty"@, &enemy_normal_wave_difficulty, &fallen, default_list(enemy_normal_wave_difficulty),);
    }
    report_gap(members, &order, &known, Some("EnemyNormalWaveDifficulty"), Some("EnemyNormalWaveInterval"), diag);
    proof {
        let gap = unknown_in_gap(members@, names, Some("EnemyNormalWaveDifficulty"@), Some("EnemyNormalWaveInterval"@));
        lemma_reported(start, a, gap, views(diag@));
        a = a + gap;
    }
    let fallback = Spanned::defaulted(Vec::new());
    let ghost fallen = fallback;
    let enemy_normal_wave_interval = decode_index_bins_field(members, "EnemyNormalWaveInterval", fallback, diag);
    proof {
        let found = index_bins_field_findings(members@, "EnemyNormalWaveInterval"@);
        lemma_reported(start, a, found, views(diag@));
        a = a + found;
        lemma_index_bins_held(members@, "EnemyNormalWaveInterval"@, &enemy_normal_wave_interval, &fallen, default_list(enemy_normal_wave_interval),);
    }
    report_gap(members, &order, &known, Some("EnemyNormalWaveInterval"), Some("EnemyPool"), diag);
    proof {
        let gap = unknown_in_gap(members@, names, Some("EnemyNormalWaveInterval"@), Some("EnemyPool"@));
        lemma_reported(start, a, gap, views(diag@));
        a = a + gap;
    }
    let fallback = Spanned::defaulted(EnemyPool::default());
    let ghost fallen = fallback;
    let enemy_pool = decode_pool_field(members, "EnemyPool", fallback, diag);
    proof {
        let found = pool_field_findings(members@, "EnemyPool"@);
        lemma_reported(start, a, found, views(diag@));
        a = a + found;
        lemma_pool_held(members@, "EnemyPool"@, &enemy_pool, &fallen, default_pool(enemy_pool),);
    }
    report_gap(members, &order, &known, Some("EnemyPool"), Some("EnemyWaveInterval"), diag);
    proof {
        let gap = unknown_in_gap(members@, names, Some("EnemyPool"@), Some("EnemyWaveInterval"@));
        lemma_reported(start, a, gap, views(diag@));
        a = a + gap;
    }
    let fallback = Spanned::defaulted(Vec::new());
    let ghost fallen = fallback;
    let enemy_wave_interval = decode_index_bins_field(members, "EnemyWaveInterval", fallback, diag);
    proof {
        let found = index_bins_field_findings(members@, "EnemyWaveInterval"@);
        lemma_reported(start, a, found, views(diag@));
        a = a + found;
        lemma_index_bins_held(members@, "EnemyWaveInterval"@, &enemy_wave_interval, &fallen, default_list(enemy_wave_interval),);
    }
    report_gap(members, &order, &known, Some("EnemyWaveInterval"), Some("EnvironmentalDamageModifier"), diag);
    proof {
        let gap = unknown_in_gap(members@, names, Some("EnemyWaveInterval"@), Some("EnvironmentalDamageModifier"@));
        lemma_reported(start, a, gap, views(diag@));
        a = a + gap;
    }
    let fallback = Spanned::defaulted(Number::zero());
    let ghost fallen = fallback;
    let environmental_damage_modifier = decode_number_field(members, "EnvironmentalDamageModifier", fallback, diag);
    proof {
        let found = number_field_findings(members@, "EnvironmentalDamageModifier"@);
        lemma_reported(start, a, found, views(diag@));
        a = a + found;
        lemma_number_held(members@, "EnvironmentalDamageModifier"@, &environmental_damage_modifier, &fallen, default_number(environmental_damage_modifier),);
    }
    report_gap(members, &order, &known, Some("EnvironmentalDamageModifier"), Some("EscortMule"), diag);
    proof {
        let gap = unknown_in_gap(members@, names, Some("EnvironmentalDamageModifier"@), Some("EscortMule"@));
        lemma_reported(start, a, gap, views(diag@));
        a = a + gap;
    }
    let fallback = Spanned::defaulted(EscortMule::default());
    let ghost fallen = fallback;
    let escort_mule = decode_mule_field(members, "EscortMule", fallback, diag);
    proof {
        let found = mule_field_findings(members@, "EscortMule"@);
        lemma_reported(start, a, found, views(diag@));
        a = a + found;
        lemma_mule_held(members@, "EscortMule"@, &escort_mule, &fallen, default_mule(escort_mule),);
    }
    report_gap(members, &order, &known, Some("EscortMule"), Some("ExtraLargeEnemyDamageResistance"), diag);
    proof {
        let gap = unknown_in_gap(members@, names, Some("EscortMule"@), Some("ExtraLargeEnemyDamageResistance"@));
        lemma_reported(start, a, gap, views(diag@));
        a = a + gap;
    }
    let fallback = Spanned::defaulted(ArrayOrSingleItem::SingleItem(Number::zero()));
    let ghost fallen = fallback;
    let extra_large_enemy_damage_resistance = decode_numbers_field(members, "ExtraLargeEnemyDamageResistance", fallback, diag);
    proof {
        let found = numbers_field_findings(members@, "ExtraLargeEnemyDamageResistance"@);
        lemma_reported(start, a, found, views(diag@));
        a = a + found;
        lemma_numbers_held(members@, "ExtraLargeEnemyDamageResistance"@, &extra_large_enemy_damage_resistance, &fallen, default_numbers(extra_large_enemy_damage_resistance),);
    }
    report_gap(members, &order, &known, Some("ExtraLargeEnemyDamageResistance"), Some("ExtraLargeEnemyDamageResistanceB"), diag);
    proof {
        let gap = unknown_in_gap(members@, names, Some("ExtraLargeEnemyDamageResistance"@), Some("ExtraLargeEnemyDamageResistanceB"@));
        lemma_reported(start, a, gap, views(diag@));
        a = a + gap;
    }
    let fallback = Spanned::defaulted(ArrayOrSingleItem::SingleItem(Number::zero()));
    let ghost fallen = fallback;
    let extra_large_enemy_damage_resistance_b = decode_numbers_field(members, "ExtraLargeEnemyDamageResistanceB", fallback, diag);
    proof {
        let found = numbers_field_findings(members@, "ExtraLargeEnemyDamageResistanceB"@);
        lemma_reported(start, a, found, views(diag@));
        a = a + found;
        lemma_numbers_held(members@, "ExtraLargeEnemyDamageResistanceB"@, &extra_large_enemy_damage_resistance_b, &fallen, default_numbers(extra_large_enemy_damage_resistance_b),);
    }
    report_gap(members, &order, &known, Some("ExtraLargeEnemyDamageResistanceB"), Some("ExtraLargeEnemyDamageResistanceC"), diag);
    proof {
        let gap = unknown_in_gap(members@, names, Some("ExtraLargeEnemyDamageResistanceB"@), Some("ExtraLargeEnemyDamageResistanceC"@));
        lemma_reported(start, a, gap, views(diag@));
        a = a + gap;
    }
    let fallback = Spanned::defaulted(ArrayOrSingleItem::SingleItem(Number::zero()));
    let ghost fallen = fallback;
    let extra_large_enemy_damage_resistance_c = decode_numbers_field(members, "ExtraLargeEnemyDamageResistanceC", fallback, diag);
    proof {
        let found = numbers_field_findings(members@, "ExtraLargeEnemyDamageResistanceC"@);
        lemma_reported(start, a, found, views(diag@));
        a = a + found;
        lemma_numbers_held(members@, "ExtraLargeEnemyDamageResistanceC"@, &extra_large_enemy_damage_resistance_c, &fallen, default_numbers(extra_large_enemy_damage_resistance_c),);
    }
    report_gap(members, &order, &known, Some("ExtraLargeEnemyDamageResistanceC"), Some("ExtraLargeEnemyDamageResistanceD"), diag);
    proof {
        let gap = unknown_in_gap(members@, names, Some("ExtraLargeEnemyDamageResistanceC"@), Some("ExtraLargeEnemyDamageResistanceD"@));
        lemma_reported(start, a, gap, views(diag@));
        a = a + gap;
    }
    let fallback = Spanned::defaulted(ArrayOrSingleItem::SingleItem(Number::zero()));
    let ghost fallen = fallback;
    let extra_large_enemy_damage_resistance_d = decode_numbers_field(members, "ExtraLargeEnemyDamageResistanceD", fallback, diag);
    proof {
        let found = numbers_field_findings(members@, "ExtraLargeEnemyDamageResistanceD"@);
        lemma_reported(start, a, found, views(diag@));
        a = a + found;
        lemma_numbers_held(members@, "ExtraLargeEnemyDamageResistanceD"@, &extra_large_enemy_damage_resistance_d, &fallen, default_numbers(extra_large_enemy_damage_resistance_d),);
    }
    report_gap(members, &order, &known, Some("ExtraLargeEnemyDamageResistanceD"), Some("FriendlyFireModifier"), diag);
    proof {
        let gap = unknown_in_gap(members@, names, Some("ExtraLargeEnemyDamageResistanceD"@), Some("FriendlyFireModifier"@));
        lemma_reported(start, a, gap, views(diag@));
        a = a + gap;
    }
    let fallback = Spanned::defaulted(Number::zero());
    let ghost fallen = fallback;
    let friendly_fire_modifier = decode_number_field(members, "FriendlyFireModifier", fallback, diag);
    proof {
        let found = number_field_findings(members@, "FriendlyFireModifier"@);
        lemma_reported(start, a, found, views(diag@));
        a = a + found;
        lemma_number_held(members@, "FriendlyFireModifier"@, &friendly_fire_modifier, &fallen, default_number(friendly_fire_modifier),);
    }
    report_gap(members, &order, &known, Some("FriendlyFireModifier"), Some("HazardBonus"), diag);
    proof {
        let gap = unknown_in_gap(members@, names, Some("FriendlyFireModifier"@), Some("HazardBonus"@));
        lemma_reported(start, a, gap, views(diag@));
        a = a + gap;
    }
    let fallback = Spanned::defaulted(Number::zero());
    let ghost fallen = fallback;
    let hazard_bonus = decode_number_field(members, "HazardBonus", fallback, diag);
    proof {
        let found = number_field_findings(members@, "HazardBonus"@);
        lemma_reported(start, a, found, views(diag@));
        a = a + found;
        lemma_number_held(members@, "HazardBonus"@, &hazard_bonus, &fallen, default_number(hazard_bonus),);
    }
    report_gap(members, &order, &known, Some("HazardBonus"), Some("HealthRegenerationMax"), diag);
    proof {
        let gap = unknown_in_gap(members@, names, Some("HazardBonus"@), Some("HealthRegenerationMax"@));
        lemma_reported(start, a, gap, views(diag@));
        a = a + gap;
    }
    let fallback = Spanned::defaulted(Number::zero());
    let ghost fallen = fallback;
    let health_regeneration_max = decode_number_field(members, "HealthRegenerationMax", fallback, diag);
    proof {
        let found = number_field_findings(members@, "HealthRegenerationMax"@);
        lemma_reported(start, a, found, views(diag@));
        a = a + found;
        lemma_number_held(members@, "HealthRegenerationMax"@, &health_regeneration_max, &fallen, default_number(health_regeneration_max),);
    }
    report_gap(members, &order, &known, Some("HealthRegenerationMax"), Some("MaxActiveCritters"), diag);
    proof {
        let gap = unknown_in_gap(members@, names, Some("HealthRegenerationMax"@), Some("MaxActiveCritters"@));
        lemma_reported(start, a, gap, views(diag@));
        a = a + gap;
    }
    let fallback = Spanned::defaulted(ArrayOrSingleItem::SingleItem(0));
    let ghost fallen = fallback;
    let max_active_critters = decode_indices_field(members, "MaxActiveCritters", fallback, diag);
    proof {
        let found = indices_field_findings(members@, "MaxActiveCritters"@);
        lemma_reported(start, a, found, views(diag@));
        a = a + found;
        lemma_indices_held(members@, "MaxActiveCritters"@, &max_active_critters, &fallen, default_indices(max_active_critters),);
    }
    report_gap(members, &order, &known, Some("MaxActiveCritters"), Some("MaxActiveElites"), diag);
    proof {
        let gap = unknown_in_gap(members@, names, Some("MaxActiveCritters"@), Some("MaxActiveElites"@));
        lemma_reported(start, a, gap, views(diag@));
        a = a + gap;
    }
    let fallback = Spanned::defaulted(0);
    let ghost fallen = fallback;
    let max_active_elites = decode_index_field(members, "MaxActiveElites", fallback, diag);
    proof {
        let found = index_field_findings(members@, "MaxActiveElites"@);
        lemma_reported(start, a, found, views(diag@));
        a = a + found;
        lemma_index_held(members@, "MaxActiveElites"@, &max_active_elites, &fallen, default_index(max_active_elites),);
    }
    report_gap(members, &order, &known, Some("MaxActiveElites"), Some("MaxActiveEnemies"), diag);
    proof {
        let gap = unknown_in_gap(members@, names, Some("MaxActiveElites"@), Some("MaxActiveEnemies"@));
        lemma_reported(start, a, gap, views(diag@));
        a = a + gap;
    }
    let fallback = Spanned::defaulted(ArrayOrSingleItem::SingleItem(0));
    let ghost fallen = fallback;
    let max_active_enemies = decode_indices_field(members, "MaxActiveEnemies", fallback, diag);
    proof {
        let found = indices_field_findings(members@, "MaxActiveEnemies"@);
        lemma_reported(start, a, found, views(diag@));
        a = a + found;
        lemma_indices_held(members@, "MaxActiveEnemies"@, &max_active_enemies, &fallen, default_indices(max_active_enemies),);
    }
    report_gap(members, &order, &known, Some("MaxActiveEnemies"), Some("MaxActiveSwarmers"), diag);
    proof {
        let gap = unknown_in_gap(members@, names, Some("MaxActiveEnemies"@), Some("MaxActiveSwarmers"@));
        lemma_reported(start, a, gap, views(diag@));
        a = a + gap;
    }
    let fallback = Spanned::defaulted(ArrayOrSingleItem::SingleItem(0));
    let ghost fallen = fallback;
    let max_active_swarmers = decode_indices_field(members, "MaxActiveSwarmers", fallback, diag);
    proof {
        let found = indices_field_findings(members@, "MaxActiveSwarmers"@);
        lemma_reported(start, a, found, views(diag@));
        a = a + found;
        lemma_indices_held(members@, "MaxActiveSwarmers"@, &max_active_swarmers, &fallen, default_indices(max_active_swarmers),);
    }
    report_gap(members, &order, &known, Some("MaxActiveSwarmers"), Some("MinPoolSize"), diag);
    proof {
        let gap = unknown_in_gap(members@, names, Some("MaxActiveSwarmers"@), Some("MinPoolSize"@));
        lemma_reported(start, a, gap, views(diag@));
        a = a + gap;
    }
    let fallback = Spanned::defaulted(Range::new(Spanned::defaulted(0), Spanned::defaulted(0)));
    let ghost fallen = fallback;
    let min_pool_size = decode_index_range_field(members, "MinPoolSize", fallback, diag);
    proof {
        let found = index_range_field_findings(members@, "MinPoolSize"@);
        lemma_reported(start, a, found, views(diag@));
        a = a + found;
        lemma_index_range_held(members@, "MinPoolSize"@, &min_pool_size, &fallen, default_index_range(min_pool_size),);
    }
    report_gap(members, &order, &known, Some("MinPoolSize"), Some("Name"), diag);
    proof {
        let gap = unknown_in_gap(members@, names, Some("MinPoolSize"@), Some("Name"@));
        lemma_reported(start, a, gap, views(diag@));
        a = a + gap;
    }
    let fallback = Spanned::defaulted(String::new());
    let ghost fallen = fallback;
    let name = decode_text_field(members, "Name", fallback, diag);
    proof {
        let found = text_field_findings(members@, "Name"@);
        lemma_reported(start, a, found, views(diag@));
        a = a + found;
        lemma_text_held(members@, "Name"@, &name, &fallen, default_text(name),);
    }
    report_gap(members, &order, &known, Some("Name"), Some("PointExtractionScalar"), diag);
    proof {
        let gap = unknown_in_gap(members@, names, Some("Name"@), Some("PointExtractionScalar"@));
        lemma_reported(start, a, gap, views(diag@));
        a = a + gap;
    }
    let fallback = Spanned::defaulted(Number::zero());
    let ghost fallen = fallback;
    let point_extraction_scalar = decode_number_field(members, "PointExtractionScalar", fallback, diag);
    proof {
        let found = number_field_findings(members@, "PointExtractionScalar"@);
        lemma_reported(start, a, found, views(diag@));
        a = a + found;
        lemma_number_held(members@, "PointExtractionScalar"@, &point_extraction_scalar, &fallen, default_number(point_extraction_scalar),);
    }
    report_gap(members, &order, &known, Some("PointExtractionScalar"), Some("ProjectileSpeedModifier"), diag);
    proof {
        let gap = unknown_in_gap(members@, names, Some("PointExtractionScalar"@), Some("ProjectileSpeedModifier"@));
        lemma_reported(start, a, gap, views(diag@));
        a = a + gap;
    }
    let fallback = Spanned::defaulted(Number::zero());
    let ghost fallen = fallback;
    let projectile_speed_modifier = decode_number_field(members, "ProjectileSpeedModifier", fallback, diag);
    proof {
        let found = number_field_findings(members@, "ProjectileSpeedModifier"@);
        lemma_reported(start, a, found, views(diag@));
        a = a + found;
        lemma_number_held(members@, "ProjectileSpeedModifier"@, &projectile_speed_modifier, &fallen, default_number(projectile_speed_modifier),);
    }
    report_gap(members, &order, &known, Some("ProjectileSpeedModifier"), Some("ResupplyCost"), diag);
    proof {
        let gap = unknown_in_gap(members@, names, Some("ProjectileSpeedModifier"@), Some("ResupplyCost"@));
        lemma_reported(start, a, gap, views(diag@));
        a = a + gap;
    }
    let fallback = Spanned::defaulted(ArrayOrSingleItem::SingleItem(Number::zero()));
    let ghost fallen = fallback;
    let resupply_cost = decode_numbers_field(members, "ResupplyCost", fallback, diag);
    proof {
        let found = numbers_field_findings(members@, "ResupplyCost"@);
        lemma_reported(start, a, found, views(diag@));
        a = a + found;
        lemma_numbers_held(members@, "ResupplyCost"@, &resupply_cost, &fallen, default_numbers(resupply_cost),);
    }
    report_gap(members, &order, &known, Some("ResupplyCost"), Some("ReviveHealthRatio"), diag);
    proof {
        let gap = unknown_in_gap(members@, names, Some("ResupplyCost"@), Some("ReviveHealthRatio"@));
        lemma_reported(start, a, gap, views(diag@));
        a = a + gap;
    }
    let fallback = Spanned::defaulted(Number::zero());
    let ghost fallen = fallback;
    let revive_health_ratio = decode_number_field(members, "ReviveHealthRatio", fallback, diag);
    proof {
        let found = number_field_findings(members@, "ReviveHealthRatio"@);
        lemma_reported(start, a, found, views(diag@));
        a = a + found;
        lemma_number_held(members@, "ReviveHealthRatio"@, &revive_health_ratio, &fallen, default_number(revive_health_ratio),);
    }
    report_gap(members, &order, &known, Some("ReviveHealthRatio"), Some("SeasonalEvents"), diag);
    proof {
        let gap = unknown_in_gap(members@, names, Some("ReviveHealthRatio"@), Some("SeasonalEvents"@));
        lemma_reported(start, a, gap, views(diag@));
        a = a + gap;
    }
    let fallback = Spanned::defaulted(Vec::new());
    let ghost fallen = fallback;
    let seasonal_events = decode_texts_field(members, "SeasonalEvents", fallback, diag);
    proof {
        let found = texts_field_findings(members@, "SeasonalEvents"@);
        lemma_reported(start, a, found, views(diag@));
        a = a + found;
        lemma_texts_held(members@, "SeasonalEvents"@, &seasonal_events, &fallen, default_list(seasonal_events),);
    }
    report_gap(members, &order, &known, Some("SeasonalEvents"), Some("SmallEnemyDamageResistance"), diag);
    proof {
        let gap = unknown_in_gap(members@, names, Some("SeasonalEvents"@), Some("SmallEnemyDamageResistance"@));
        lemma_reported(start, a, gap, views(diag@));
        a = a + gap;
    }
    let fallback = Spanned::defaulted(ArrayOrSingleItem::SingleItem(Number::zero()));
    let ghost fallen = fallback;
    let small_enemy_damage_resistance = decode_numbers_field(members, "SmallEnemyDamageResistance", fallback, diag);
    proof {
        let found = numbers_field_findings(members@, "SmallEnemyDamageResistance"@);
        lemma_reported(start, a, found, views(diag@));
        a = a + found;
        lemma_numbers_held(members@, "SmallEnemyDamageResistance"@, &small_enemy_damage_resistance, &fallen, default_numbers(small_enemy_damage_resistance),);
    }
    report_gap(members, &order, &known, Some("SmallEnemyDamageResistance"), Some("SpecialEnemies"), diag);
    proof {
        let gap = unknown_in_gap(members@, names, Some("SmallEnemyDamageResistance"@), Some("SpecialEnemies"@));
        lemma_reported(start, a, gap, views(diag@));
        a = a + gap;
    }
    let fallback = Spanned::defaulted(EnemyPool::default());
    let ghost fallen = fallback;
    let special_enemies = decode_pool_field(members, "SpecialEnemies", fallback, diag);
    proof {
        let found = pool_field_findings(members@, "SpecialEnemies"@);
        lemma_reported(start, a, found, views(diag@));
        a = a + found;
        lemma_pool_held(members@, "SpecialEnemies"@, &special_enemies, &fallen, default_pool(special_enemies),);
    }
    report_gap(members, &order, &known, Some("SpecialEnemies"), Some("SpeedModifier"), diag);
    proof {
        let gap = unknown_in_gap(members@, names, Some("SpecialEnemies"@), Some("SpeedModifier"@));
        lemma_reported(start, a, gap, views(diag@));
        a = a + gap;
    }
    let fallback = Spanned::defaulted(Number::zero());
    let ghost fallen = fallback;
    let speed_modifier = decode_number_field(members, "SpeedModifier", fallback, diag);
    proof {
        let found = number_field_findings(members@, "SpeedModifier"@);
        lemma_reported(start, a, found, views(diag@));
        a = a + found;
        lemma_number_held(members@, "SpeedModifier"@, &speed_modifier, &fallen, default_number(speed_modifier),);
    }
    report_gap(members, &order, &known, Some("SpeedModifier"), Some("StartingNitra"), diag);
    proof {
        let gap = unknown_in_gap(members@, names, Some("SpeedModifier"@), Some("StartingNitra"@));
        lemma_reported(start, a, gap, views(diag@));
        a = a + gap;
    }
    let fallback = Spanned::defaulted(ArrayOrSingleItem::SingleItem(0));
    let ghost fallen = fallback;
    let starting_nitra = decode_indices_field(members, "StartingNitra", fallback, diag);
    proof {
        let found = indices_field_findings(members@, "StartingNitra"@);
        lemma_reported(start, a, found, views(diag@));
        a = a + found;
        lemma_indices_held(members@, "StartingNitra"@, &starting_nitra, &fallen, default_indices(starting_nitra),);
    }
    report_gap(members, &order, &known, Some("StartingNitra"), Some("StationaryDifficulty"), diag);
    proof {
        let gap = unknown_in_gap(members@, names, Some("StartingNitra"@), Some("StationaryDifficulty"@));
        lemma_reported(start, a, gap, views(diag@));
        a = a + gap;
    }
    let fallback = Spanned::defaulted(Vec::new());
    let ghost fallen = fallback;
    let stationary_difficulty = decode_index_bins_field(members, "StationaryDifficulty", fallback, diag);
    proof {
        let found = index_bins_field_findings(members@, "StationaryDifficulty"@);
        lemma_reported(start, a, found, views(diag@));
        a = a + found;
        lemma_index_bins_held(members@, "StationaryDifficulty"@, &stationary_difficulty, &fallen, default_list(stationary_difficulty),);
    }
    report_gap(members, &order, &known, Some("StationaryDifficulty"), Some("StationaryEnemies"), diag);
    proof {
        let gap = unknown_in_gap(members@, names, Some("StationaryDifficulty"@), Some("StationaryEnemies"@));
        lemma_reported(start, a, gap, views(diag@));
        a = a + gap;
    }
    let fallback = Spanned::defaulted(EnemyPool::default());
    let ghost fallen = fallback;
    let stationary_enemies = decode_pool_field(members, "StationaryEnemies", fallback, diag);
    proof {
        let found = pool_field_findings(members@, "StationaryEnemies"@);
        lemma_reported(start, a, found, views(diag@));
        a = a + found;
        lemma_pool_held(members@, "StationaryEnemies"@, &stationary_enemies, &fallen, default_pool(stationary_enemies),);
    }
    report_gap(members, &order, &known, Some("StationaryEnemies"), Some("StationaryEnemyDiversity"), diag);
    proof {
        let gap = unknown_in_gap(members@, names, Some("StationaryEnemies"@), Some("StationaryEnemyDiversity"@));
        lemma_reported(start, a, gap, views(diag@));
        a = a + gap;
    }
    let fallback = Spanned::defaulted(Vec::new());
    let ghost fallen = fallback;
    let stationary_enemy_diversity = decode_index_bins_field(members, "StationaryEnemyDiversity", fallback, diag);
    proof {
        let found = index_bins_field_findings(members@, "StationaryEnemyDiversity"@);
        lemma_reported(start, a, found, views(diag@));
        a = a + found;
        lemma_index_bins_held(members@, "StationaryEnemyDiversity"@, &stationary_enemy_diversity, &fallen, default_list(stationary_enemy_diversity),);
    }
    report_gap(members, &order, &known, Some("StationaryEnemyDiversity"), Some("VeteranLarge"), diag);
    proof {
        let gap = unknown_in_gap(members@, names, Some("StationaryEnemyDiversity"@), Some("VeteranLarge"@));
        lemma_reported(start, a, gap, views(diag@));
        a = a + gap;
    }
    let fallback = Spanned::defaulted(Vec::new());
    let ghost fallen = fallback;
    let veteran_large = decode_number_bins_field(members, "VeteranLarge", fallback, diag);
    proof {
        let found = number_bins_field_findings(members@, "VeteranLarge"@);
        lemma_reported(start, a, found, views(diag@));
        a = a + found;
        lemma_number_bins_held(members@, "VeteranLarge"@, &veteran_large, &fallen, default_list(veteran_large),);
    }
    report_gap(members, &order, &known, Some("VeteranLarge"), Some("VeteranNormal"), diag);
    proof {
        let gap = unknown_in_gap(members@, names, Some("VeteranLarge"@), Some("VeteranNormal"@));
        lemma_reported(start, a, gap, views(diag@));
        a = a + gap;
    }
    let fallback = Spanned::defaulted(Vec::new());
    let ghost fallen = fallback;
    let veteran_normal = decode_number_bins_field(members, "VeteranNormal", fallback, diag);
    proof {
        let found = number_bins_field_findings(members@, "VeteranNormal"@);
        lemma_reported(start, a, found, views(diag@));
        a = a + found;
        lemma_number_bins_held(members@, "VeteranNormal"@, &veteran_normal, &fallen, default_list(veteran_normal),);
    }
    report_gap(members, &order, &known, Some("VeteranNormal"), Some("WaveStartDelayScale"), diag);
    proof {
        let gap = unknown_in_gap(members@, names, Some("VeteranNormal"@), Some("WaveStartDelayScale"@));
        lemma_reported(start, a, gap, views(diag@));
        a = a + gap;
    }
    let fallback = Spanned::defaulted(Number::zero());
    let ghost fallen = fallback;
    let wave_start_delay_scale = decode_number_field(members, "WaveStartDelayScale", fallback, diag);
    proof {
        let found = number_field_findings(members@, "WaveStartDelayScale"@);
        lemma_reported(start, a, found, views(diag@));
        a = a + found;
        lemma_number_held(members@, "WaveStartDelayScale"@, &wave_start_delay_scale, &fallen, default_number(wave_start_delay_scale),);
    }
    report_gap(members, &order, &known, Some("WaveStartDelayScale"), None, diag);
    proof {
        let gap = unknown_in_gap(members@, names, Some("WaveStartDelayScale"@), None);
        lemma_reported(start, a, gap, views(diag@));
        a = a + gap;
    }
    CustomDifficulty {
        attack_cooldown_modifier,
        common_enemies,
        description,
        disruptive_enemies,
        disruptive_enemy_pool_count,
        elite_cooldown,
        encounter_difficulty,
        enemy_count_modifier,
        enemy_damage_modifier,
        enemy_damage_resistance,
        enemy_descriptors,
        enemy_diversity,
        enemy_normal_wave_difficulty,
        enemy_normal_wave_interval,
        enemy_pool,
        enemy_wave_interval,
        environmental_damage_modifier,
        escort_mule,
        extra_large_enemy_damage_resistance,
        extra_large_enemy_damage_resistance_b,
        extra_large_enemy_damage_resistance_c,
        extra_large_enemy_damage_resistance_d,
        friendly_fire_modifier,
        hazard_bonus,
        health_regeneration_max,
        max_active_critters,
        max_active_elites,
        max_active_enemies,
        max_active_swarmers,
        min_pool_size,
        name,
        point_extraction_scalar,
        projectile_speed_modifier,
        resupply_cost,
        revive_health_ratio,
        seasonal_events,
        small_enemy_damage_resistance,
        special_enemies,
        speed_modifier,
        starting_nitra,
        stationary_difficulty,
        stationary_enemies,
        stationary_enemy_diversity,
        veteran_large,
        veteran_normal,
        wave_start_delay_scale,
    }
}

/// What the decoding of `tree` reports: what its members report, where it
/// is an object, and else nothing.
pub open spec fn decode_findings(tree: &Spanned<Json>, vocabulary: &Vocabulary) -> Seq<DiagnosticView> {
    match tree.val {
        Json::Object(members) => document_object_findings(members@, vocabulary),
        _ => Seq::empty(),
    }
}

/// Decodes the members of the document. A member that the input does not
/// give, or gives with a value that is not accepted, leaves its field with
/// the default.
pub fn handle_top_level_members(
    members: &Vec<Member>,
    vocabulary: &Vocabulary,
    diag: &mut Vec<Diagnostic>,
) -> (cd: CustomDifficulty)
    ensures
        views(final(diag)@) == views(old(diag)@) + document_object_findings(members@, vocabulary),
        document_object_value(members@, &cd, vocabulary),
{
    decode_document_object(members, vocabulary, diag)
}

/// Decodes the document `tree`. There is a Custom Difficulty where the
/// tree is an object, and none else.
pub fn decode(tree: &Spanned<Json>, vocabulary: &Vocabulary, diag: &mut Vec<Diagnostic>) -> (r: Option<
    CustomDifficulty,
>)
    ensures
        views(final(diag)@) == views(old(diag)@) + decode_findings(tree, vocabulary),
        match r {
            Some(cd) => tree.val matches Json::Object(members) && document_object_value(
                members@,
                &cd,
                vocabulary,
            ),
            None => !(tree.val is Object),
        },
{
    match &tree.val {
        Json::Object(members) => Some(handle_top_level_members(members, vocabulary, diag)),
        _ => {
            assert(views(diag@) =~= views(old(diag)@) + decode_findings(tree, vocabulary));
            None
        },
    }
}

proof fn lemma_key_0_rises()
    ensures
        str_lt("AttackCooldownModifier"@, "CommonEnemies"@),
{
    reveal_strlit("AttackCooldownModifier");
    reveal_strlit("CommonEnemies");
    assert("AttackCooldownModifier"@.subrange(0, 0) =~= "CommonEnemies"@.subrange(0, 0));
    lemma_ascii_order("AttackCooldownModifier"@, "CommonEnemies"@, 0);
}

proof fn lemma_key_1_rises()
    ensures
        str_lt("CommonEnemies"@, "Description"@),
{
    reveal_strlit("CommonEnemies");
    reveal_strlit("Description");
    assert("CommonEnemies"@.subrange(0, 0) =~= "Description"@.subrange(0, 0));
    lemma_ascii_order("CommonEnemies"@, "Description"@, 0);
}

proof fn lemma_key_2_rises()
    ensures
        str_lt("Description"@, "DisruptiveEnemies"@),
{
    reveal_strlit("Description");
    reveal_strlit("DisruptiveEnemies");
    assert("Description"@.subrange(0, 1) =~= "DisruptiveEnemies"@.subrange(0, 1));
    lemma_ascii_order("Description"@, "DisruptiveEnemies"@, 1);
}

proof fn lemma_key_3_rises()
    ensures
        str_lt("DisruptiveEnemies"@, "DisruptiveEnemyPoolCount"@),
{
    reveal_strlit("DisruptiveEnemies");
    reveal_strlit("DisruptiveEnemyPoolCount");
    assert("DisruptiveEnemies"@.subrange(0, 14) =~= "DisruptiveEnemyPoolCount"@.subrange(0, 14));
    lemma_ascii_order("DisruptiveEnemies"@, "DisruptiveEnemyPoolCount"@, 14);
}

proof fn lemma_key_4_rises()
    ensures
        str_lt("DisruptiveEnemyPoolCount"@, "EliteCooldown"@),
{
    reveal_strlit("DisruptiveEnemyPoolCount");
    reveal_strlit("EliteCooldown");
    assert("DisruptiveEnemyPoolCount"@.subrange(0, 0) =~= "EliteCooldown"@.subrange(0, 0));
    lemma_ascii_order("DisruptiveEnemyPoolCount"@, "EliteCooldown"@, 0);
}

proof fn lemma_key_5_rises()
    ensures
        str_lt("EliteCooldown"@, "EncounterDifficulty"@),
{
    reveal_strlit("EliteCooldown");
    reveal_strlit("EncounterDifficulty");
    assert("EliteCooldown"@.subrange(0, 1) =~= "EncounterDifficulty"@.subrange(0, 1));
    lemma_ascii_order("EliteCooldown"@, "EncounterDifficulty"@, 1);
}

proof fn lemma_key_6_rises()
    ensures
        str_lt("EncounterDifficulty"@, "EnemyCountModifier"@),
{
    reveal_strlit("EncounterDifficulty");
    reveal_strlit("EnemyCountModifier");
    assert("EncounterDifficulty"@.subrange(0, 2) =~= "EnemyCountModifier"@.subrange(0, 2));
    lemma_ascii_order("EncounterDifficulty"@, "EnemyCountModifier"@, 2);
}

proof fn lemma_key_7_rises()
    ensures
        str_lt("EnemyCountModifier"@, "EnemyDamageModifier"@),
{
    reveal_strlit("EnemyCountModifier");
    reveal_strlit("EnemyDamageModifier");
    assert("EnemyCountModifier"@.subrange(0, 5) =~= "EnemyDamageModifier"@.subrange(0, 5));
    lemma_ascii_order("EnemyCountModifier"@, "EnemyDamageModifier"@, 5);
}

proof fn lemma_key_8_rises()
    ensures
        str_lt("EnemyDamageModifier"@, "EnemyDamageResistance"@),
{
    reveal_strlit("EnemyDamageModifier");
    reveal_strlit("EnemyDamageResistance");
    assert("EnemyDamageModifier"@.subrange(0, 11) =~= "EnemyDamageResistance"@.subrange(0, 11));
    lemma_ascii_order("EnemyDamageModifier"@, "EnemyDamageResistance"@, 11);
}

proof fn lemma_key_9_rises()
    ensures
        str_lt("EnemyDamageResistance"@, "EnemyDescriptors"@),
{
    reveal_strlit("EnemyDamageResistance");
    reveal_strlit("EnemyDescriptors");
    assert("EnemyDamageResistance"@.subrange(0, 6) =~= "EnemyDescriptors"@.subrange(0, 6));
    lemma_ascii_order("EnemyDamageResistance"@, "EnemyDescriptors"@, 6);
}

proof fn lemma_key_10_rises()
    ensures
        str_lt("EnemyDescriptors"@, "EnemyDiversity"@),
{
    reveal_strlit("EnemyDescriptors");
    reveal_strlit("EnemyDiversity");
    assert("EnemyDescriptors"@.subrange(0, 6) =~= "EnemyDiversity"@.subrange(0, 6));
    lemma_ascii_order("EnemyDescriptors"@, "EnemyDiversity"@, 6);
}

proof fn lemma_key_11_rises()
    ensures
        str_lt("EnemyDiversity"@, "EnemyNormalWaveDifficulty"@),
{
    reveal_strlit("EnemyDiversity");
    reveal_strlit("EnemyNormalWaveDifficulty");
    assert("EnemyDiversity"@.subrange(0, 5) =~= "EnemyNormalWaveDifficulty"@.subrange(0, 5));
    lemma_ascii_order("EnemyDiversity"@, "EnemyNormalWaveDifficulty"@, 5);
}

proof fn lemma_key_12_rises()
    ensures
        str_lt("EnemyNormalWaveDifficulty"@, "EnemyNormalWaveInterval"@),
{
    reveal_strlit("EnemyNormalWaveDifficulty");
    reveal_strlit("EnemyNormalWaveInterval");
    assert("EnemyNormalWaveDifficulty"@.subrange(0, 15) =~= "EnemyNormalWaveInterval"@.subrange(0, 15));
    lemma_ascii_order("EnemyNormalWaveDifficulty"@, "EnemyNormalWaveInterval"@, 15);
}

proof fn lemma_key_13_rises()
    ensures
        str_lt("EnemyNormalWaveInterval"@, "EnemyPool"@),
{
    reveal_strlit("EnemyNormalWaveInterval");
    reveal_strlit("EnemyPool");
    assert("EnemyNormalWaveInterval"@.subrange(0, 5) =~= "EnemyPool"@.subrange(0, 5));
    lemma_ascii_order("EnemyNormalWaveInterval"@, "EnemyPool"@, 5);
}

proof fn lemma_key_14_rises()
    ensures
        str_lt("EnemyPool"@, "EnemyWaveInterval"@),
{
    reveal_strlit("EnemyPool");
    reveal_strlit("EnemyWaveInterval");
    assert("EnemyPool"@.subrange(0, 5) =~= "EnemyWaveInterval"@.subrange(0, 5));
    lemma_ascii_order("EnemyPool"@, "EnemyWaveInterval"@, 5);
}

proof fn lemma_key_15_rises()
    ensures
        str_lt("EnemyWaveInterval"@, "EnvironmentalDamageModifier"@),
{
    reveal_strlit("EnemyWaveInterval");
    reveal_strlit("EnvironmentalDamageModifier");
    assert("EnemyWaveInterval"@.subrange(0, 2) =~= "EnvironmentalDamageModifier"@.subrange(0, 2));
    lemma_ascii_order("EnemyWaveInterval"@, "EnvironmentalDamageModifier"@, 2);
}

proof fn lemma_key_16_rises()
    ensures
        str_lt("EnvironmentalDamageModifier"@, "EscortMule"@),
{
    reveal_strlit("EnvironmentalDamageModifier");
    reveal_strlit("EscortMule");
    assert("EnvironmentalDamageModifier"@.subrange(0, 1) =~= "EscortMule"@.subrange(0, 1));
    lemma_ascii_order("EnvironmentalDamageModifier"@, "EscortMule"@, 1);
}

proof fn lemma_key_17_rises()
    ensures
        str_lt("EscortMule"@, "ExtraLargeEnemyDamageResistance"@),
{
    reveal_strlit("EscortMule");
    reveal_strlit("ExtraLargeEnemyDamageResistance");
    assert("EscortMule"@.subrange(0, 1) =~= "ExtraLargeEnemyDamageResistance"@.subrange(0, 1));
    lemma_ascii_order("EscortMule"@, "ExtraLargeEnemyDamageResistance"@, 1);
}

proof fn lemma_key_18_rises()
    ensures
        str_lt("ExtraLargeEnemyDamageResistance"@, "ExtraLargeEnemyDamageResistanceB"@),
{
    reveal_strlit("ExtraLargeEnemyDamageResistance");
    reveal_strlit("ExtraLargeEnemyDamageResistanceB");
    assert("ExtraLargeEnemyDamageResistance"@.subrange(0, 31) =~= "ExtraLargeEnemyDamageResistanceB"@.subrange(0, 31));
    lemma_ascii_order("ExtraLargeEnemyDamageResistance"@, "ExtraLargeEnemyDamageResistanceB"@, 31);
}

proof fn lemma_key_19_rises()
    ensures
        str_lt("ExtraLargeEnemyDamageResistanceB"@, "ExtraLargeEnemyDamageResistanceC"@),
{
    reveal_strlit("ExtraLargeEnemyDamageResistanceB");
    reveal_strlit("ExtraLargeEnemyDamageResistanceC");
    assert("ExtraLargeEnemyDamageResistanceB"@.subrange(0, 31) =~= "ExtraLargeEnemyDamageResistanceC"@.subrange(0, 31));
    lemma_ascii_order("ExtraLargeEnemyDamageResistanceB"@, "ExtraLargeEnemyDamageResistanceC"@, 31);
}

proof fn lemma_key_20_rises()
    ensures
        str_lt("ExtraLargeEnemyDamageResistanceC"@, "ExtraLargeEnemyDamageResistanceD"@),
{
    reveal_strlit("ExtraLargeEnemyDamageResistanceC");
    reveal_strlit("ExtraLargeEnemyDamageResistanceD");
    assert("ExtraLargeEnemyDamageResistanceC"@.subrange(0, 31) =~= "ExtraLargeEnemyDamageResistanceD"@.subrange(0, 31));
    lemma_ascii_order("ExtraLargeEnemyDamageResistanceC"@, "ExtraLargeEnemyDamageResistanceD"@, 31);
}

proof fn lemma_key_21_rises()
    ensures
        str_lt("ExtraLargeEnemyDamageResistanceD"@, "FriendlyFireModifier"@),
{
    reveal_strlit("ExtraLargeEnemyDamageResistanceD");
    reveal_strlit("FriendlyFireModifier");
    assert("ExtraLargeEnemyDamageResistanceD"@.subrange(0, 0) =~= "FriendlyFireModifier"@.subrange(0, 0));
    lemma_ascii_order("ExtraLargeEnemyDamageResistanceD"@, "FriendlyFireModifier"@, 0);
}

proof fn lemma_key_22_rises()
    ensures
        str_lt("FriendlyFireModifier"@, "HazardBonus"@),
{
    reveal_strlit("FriendlyFireModifier");
    reveal_strlit("HazardBonus");
    assert("FriendlyFireModifier"@.subrange(0, 0) =~= "HazardBonus"@.subrange(0, 0));
    lemma_ascii_order("FriendlyFireModifier"@, "HazardBonus"@, 0);
}

proof fn lemma_key_23_rises()
    ensures
        str_lt("HazardBonus"@, "HealthRegenerationMax"@),
{
    reveal_strlit("HazardBonus");
    reveal_strlit("HealthRegenerationMax");
    assert("HazardBonus"@.subrange(0, 1) =~= "HealthRegenerationMax"@.subrange(0, 1));
    lemma_ascii_order("HazardBonus"@, "HealthRegenerationMax"@, 1);
}

proof fn lemma_key_24_rises()
    ensures
        str_lt("HealthRegenerationMax"@, "MaxActiveCritters"@),
{
    reveal_strlit("HealthRegenerationMax");
    reveal_strlit("MaxActiveCritters");
    assert("HealthRegenerationMax"@.subrange(0, 0) =~= "MaxActiveCritters"@.subrange(0, 0));
    lemma_ascii_order("HealthRegenerationMax"@, "MaxActiveCritters"@, 0);
}

proof fn lemma_key_25_rises()
    ensures
        str_lt("MaxActiveCritters"@, "MaxActiveElites"@),
{
    reveal_strlit("MaxActiveCritters");
    reveal_strlit("MaxActiveElites");
    assert("MaxActiveCritters"@.subrange(0, 9) =~= "MaxActiveElites"@.subrange(0, 9));
    lemma_ascii_order("MaxActiveCritters"@, "MaxActiveElites"@, 9);
}

proof fn lemma_key_26_rises()
    ensures
        str_lt("MaxActiveElites"@, "MaxActiveEnemies"@),
{
    reveal_strlit("MaxActiveElites");
    reveal_strlit("MaxActiveEnemies");
    assert("MaxActiveElites"@.subrange(0, 10) =~= "MaxActiveEnemies"@.subrange(0, 10));
    lemma_ascii_order("MaxActiveElites"@, "MaxActiveEnemies"@, 10);
}

proof fn lemma_key_27_rises()
    ensures
        str_lt("MaxActiveEnemies"@, "MaxActiveSwarmers"@),
{
    reveal_strlit("MaxActiveEnemies");
    reveal_strlit("MaxActiveSwarmers");
    assert("MaxActiveEnemies"@.subrange(0, 9) =~= "MaxActiveSwarmers"@.subrange(0, 9));
    lemma_ascii_order("MaxActiveEnemies"@, "MaxActiveSwarmers"@, 9);
}

proof fn lemma_key_28_rises()
    ensures
        str_lt("MaxActiveSwarmers"@, "MinPoolSize"@),
{
    reveal_strlit("MaxActiveSwarmers");
    reveal_strlit("MinPoolSize");
    assert("MaxActiveSwarmers"@.subrange(0, 1) =~= "MinPoolSize"@.subrange(0, 1));
    lemma_ascii_order("MaxActiveSwarmers"@, "MinPoolSize"@, 1);
}

proof fn lemma_key_29_rises()
    ensures
        str_lt("MinPoolSize"@, "Name"@),
{
    reveal_strlit("MinPoolSize");
    reveal_strlit("Name");
    assert("MinPoolSize"@.subrange(0, 0) =~= "Name"@.subrange(0, 0));
    lemma_ascii_order("MinPoolSize"@, "Name"@, 0);
}

proof fn lemma_key_30_rises()
    ensures
        str_lt("Name"@, "PointExtractionScalar"@),
{
    reveal_strlit("Name");
    reveal_strlit("PointExtractionScalar");
    assert("Name"@.subrange(0, 0) =~= "PointExtractionScalar"@.subrange(0, 0));
    lemma_ascii_order("Name"@, "PointExtractionScalar"@, 0);
}

proof fn lemma_key_31_rises()
    ensures
        str_lt("PointExtractionScalar"@, "ProjectileSpeedModifier"@),
{
    reveal_strlit("PointExtractionScalar");
    reveal_strlit("ProjectileSpeedModifier");
    assert("PointExtractionScalar"@.subrange(0, 1) =~= "ProjectileSpeedModifier"@.subrange(0, 1));
    lemma_ascii_order("PointExtractionScalar"@, "ProjectileSpeedModifier"@, 1);
}

proof fn lemma_key_32_rises()
    ensures
        str_lt("ProjectileSpeedModifier"@, "ResupplyCost"@),
{
    reveal_strlit("ProjectileSpeedModifier");
    reveal_strlit("ResupplyCost");
    assert("ProjectileSpeedModifier"@.subrange(0, 0) =~= "ResupplyCost"@.subrange(0, 0));
    lemma_ascii_order("ProjectileSpeedModifier"@, "ResupplyCost"@, 0);
}

proof fn lemma_key_33_rises()
    ensures
        str_lt("ResupplyCost"@, "ReviveHealthRatio"@),
{
    reveal_strlit("ResupplyCost");
    reveal_strlit("ReviveHealthRatio");
    assert("ResupplyCost"@.subrange(0, 2) =~= "ReviveHealthRatio"@.subrange(0, 2));
    lemma_ascii_order("ResupplyCost"@, "ReviveHealthRatio"@, 2);
}

proof fn lemma_key_34_rises()
    ensures
        str_lt("ReviveHealthRatio"@, "SeasonalEvents"@),
{
    reveal_strlit("ReviveHealthRatio");
    reveal_strlit("SeasonalEvents");
    assert("ReviveHealthRatio"@.subrange(0, 0) =~= "SeasonalEvents"@.subrange(0, 0));
    lemma_ascii_order("ReviveHealthRatio"@, "SeasonalEvents"@, 0);
}

proof fn lemma_key_35_rises()
    ensures
        str_lt("SeasonalEvents"@, "SmallEnemyDamageResistance"@),
{
    reveal_strlit("SeasonalEvents");
    reveal_strlit("SmallEnemyDamageResistance");
    assert("SeasonalEvents"@.subrange(0, 1) =~= "SmallEnemyDamageResistance"@.subrange(0, 1));
    lemma_ascii_order("SeasonalEvents"@, "SmallEnemyDamageResistance"@, 1);
}

proof fn lemma_key_36_rises()
    ensures
        str_lt("SmallEnemyDamageResistance"@, "SpecialEnemies"@),
{
    reveal_strlit("SmallEnemyDamageResistance");
    reveal_strlit("SpecialEnemies");
    assert("SmallEnemyDamageResistance"@.subrange(0, 1) =~= "SpecialEnemies"@.subrange(0, 1));
    lemma_ascii_order("SmallEnemyDamageResistance"@, "SpecialEnemies"@, 1);
}

proof fn lemma_key_37_rises()
    ensures
        str_lt("SpecialEnemies"@, "SpeedModifier"@),
{
    reveal_strlit("SpecialEnemies");
    reveal_strlit("SpeedModifier");
    assert("SpecialEnemies"@.subrange(0, 3) =~= "SpeedModifier"@.subrange(0, 3));
    lemma_ascii_order("SpecialEnemies"@, "SpeedModifier"@, 3);
}

proof fn lemma_key_38_rises()
    ensures
        str_lt("SpeedModifier"@, "StartingNitra"@),
{
    reveal_strlit("SpeedModifier");
    reveal_strlit("StartingNitra");
    assert("SpeedModifier"@.subrange(0, 1) =~= "StartingNitra"@.subrange(0, 1));
    lemma_ascii_order("SpeedModifier"@, "StartingNitra"@, 1);
}

proof fn lemma_key_39_rises()
    ensures
        str_lt("StartingNitra"@, "StationaryDifficulty"@),
{
    reveal_strlit("StartingNitra");
    reveal_strlit("StationaryDifficulty");
    assert("StartingNitra"@.subrange(0, 3) =~= "StationaryDifficulty"@.subrange(0, 3));
    lemma_ascii_order("StartingNitra"@, "StationaryDifficulty"@, 3);
}

proof fn lemma_key_40_rises()
    ensures
        str_lt("StationaryDifficulty"@, "StationaryEnemies"@),
{
    reveal_strlit("StationaryDifficulty");
    reveal_strlit("StationaryEnemies");
    assert("StationaryDifficulty"@.subrange(0, 10) =~= "StationaryEnemies"@.subrange(0, 10));
    lemma_ascii_order("StationaryDifficulty"@, "StationaryEnemies"@, 10);
}

proof fn lemma_key_41_rises()
    ensures
        str_lt("StationaryEnemies"@, "StationaryEnemyDiversity"@),
{
    reveal_strlit("StationaryEnemies");
    reveal_strlit("StationaryEnemyDiversity");
    assert("StationaryEnemies"@.subrange(0, 14) =~= "StationaryEnemyDiversity"@.subrange(0, 14));
    lemma_ascii_order("StationaryEnemies"@, "StationaryEnemyDiversity"@, 14);
}

proof fn lemma_key_42_rises()
    ensures
        str_lt("StationaryEnemyDiversity"@, "VeteranLarge"@),
{
    reveal_strlit("StationaryEnemyDiversity");
    reveal_strlit("VeteranLarge");
    assert("StationaryEnemyDiversity"@.subrange(0, 0) =~= "VeteranLarge"@.subrange(0, 0));
    lemma_ascii_order("StationaryEnemyDiversity"@, "VeteranLarge"@, 0);
}

proof fn lemma_key_43_rises()
    ensures
        str_lt("VeteranLarge"@, "VeteranNormal"@),
{
    reveal_strlit("VeteranLarge");
    reveal_strlit("VeteranNormal");
    assert("VeteranLarge"@.subrange(0, 7) =~= "VeteranNormal"@.subrange(0, 7));
    lemma_ascii_order("VeteranLarge"@, "VeteranNormal"@, 7);
}

proof fn lemma_key_44_rises()
    ensures
        str_lt("VeteranNormal"@, "WaveStartDelayScale"@),
{
    reveal_strlit("VeteranNormal");
    reveal_strlit("WaveStartDelayScale");
    assert("VeteranNormal"@.subrange(0, 0) =~= "WaveStartDelayScale"@.subrange(0, 0));
    lemma_ascii_order("VeteranNormal"@, "WaveStartDelayScale"@, 0);
}

/// The keys of the document rise from each to the next.
pub proof fn lemma_document_names_sorted()
    ensures
        names_sorted(document_names()),
{
    let names = document_names();
    assert forall|i: int| 0 <= i < names.len() - 1 implies str_lt(#[trigger] names[i], names[i + 1]) by {
        if i == 0 {
            lemma_key_0_rises();
        }
        if i == 1 {
            lemma_key_1_rises();
        }
        if i == 2 {
            lemma_key_2_rises();
        }
        if i == 3 {
            lemma_key_3_rises();
        }
        if i == 4 {
            lemma_key_4_rises();
        }
        if i == 5 {
            lemma_key_5_rises();
        }
        if i == 6 {
            lemma_key_6_rises();
        }
        if i == 7 {
            lemma_key_7_rises();
        }
        if i == 8 {
            lemma_key_8_rises();
        }
        if i == 9 {
            lemma_key_9_rises();
        }
        if i == 10 {
            lemma_key_10_rises();
        }
        if i == 11 {
            lemma_key_11_rises();
        }
        if i == 12 {
            lemma_key_12_rises();
        }
        if i == 13 {
            lemma_key_13_rises();
        }
        if i == 14 {
            lemma_key_14_rises();
        }
        if i == 15 {
            lemma_key_15_rises();
        }
        if i == 16 {
            lemma_key_16_rises();
        }
        if i == 17 {
            lemma_key_17_rises();
        }
        if i == 18 {
            lemma_key_18_rises();
        }
        if i == 19 {
            lemma_key_19_rises();
        }
        if i == 20 {
            lemma_key_20_rises();
        }
        if i == 21 {
            lemma_key_21_rises();
        }
        if i == 22 {
            lemma_key_22_rises();
        }
        if i == 23 {
            lemma_key_23_rises();
        }
        if i == 24 {
            lemma_key_24_rises();
        }
        if i == 25 {
            lemma_key_25_rises();
        }
        if i == 26 {
            lemma_key_26_rises();
        }
        if i == 27 {
            lemma_key_27_rises();
        }
        if i == 28 {
            lemma_key_28_rises();
        }
        if i == 29 {
            lemma_key_29_rises();
        }
        if i == 30 {
            lemma_key_30_rises();
        }
        if i == 31 {
            lemma_key_31_rises();
        }
        if i == 32 {
            lemma_key_32_rises();
        }
        if i == 33 {
            lemma_key_33_rises();
        }
        if i == 34 {
            lemma_key_34_rises();
        }
        if i == 35 {
            lemma_key_35_rises();
        }
        if i == 36 {
            lemma_key_36_rises();
        }
        if i == 37 {
            lemma_key_37_rises();
        }
        if i == 38 {
            lemma_key_38_rises();
        }
        if i == 39 {
            lemma_key_39_rises();
        }
        if i == 40 {
            lemma_key_40_rises();
        }
        if i == 41 {
            lemma_key_41_rises();
        }
        if i == 42 {
            lemma_key_42_rises();
        }
        if i == 43 {
            lemma_key_43_rises();
        }
        if i == 44 {
            lemma_key_44_rises();
        }
    }
    lemma_sorted_from_adjacent(names);
}

/// No two members have one key.
pub open spec fn keys_distinct(members: Seq<Member>) -> bool {
    forall|a: int, b: int| 0 <= a < b < members.len() ==> members[a].0.value@ != members[b].0.value@
}

/// The key of each member is a key of the document.
pub open spec fn keys_known(members: Seq<Member>) -> bool {
    forall|k: int| 0 <= k < members.len() ==> document_names().contains((#[trigger] members[k]).0.value@)
}

/// The value of each member is accepted, with all that is in it, as what
/// the schema asks for under its key.
pub open spec fn values_accepted(members: Seq<Member>, vocabulary: &Vocabulary) -> bool {
    &&& number_field_findings(members, "AttackCooldownModifier"@).len() == 0
    &&& pool_field_findings(members, "CommonEnemies"@).len() == 0
    &&& text_field_findings(members, "Description"@).len() == 0
    &&& pool_field_findings(members, "DisruptiveEnemies"@).len() == 0
    &&& index_range_field_findings(members, "DisruptiveEnemyPoolCount"@).len() == 0
    &&& index_field_findings(members, "EliteCooldown"@).len() == 0
    &&& index_bins_field_findings(members, "EncounterDifficulty"@).len() == 0
    &&& numbers_field_findings(members, "EnemyCountModifier"@).len() == 0
    &&& numbers_field_findings(members, "EnemyDamageModifier"@).len() == 0
    &&& numbers_field_findings(members, "EnemyDamageResistance"@).len() == 0
    &&& descriptors_field_findings(members, "EnemyDescriptors"@, vocabulary).len() == 0
    &&& index_bins_field_findings(members, "EnemyDiversity"@).len() == 0
    &&& index_bins_field_findings(members, "EnemyNormalWaveDifficulty"@).len() == 0
    &&& index_bins_field_findings(members, "EnemyNormalWaveInterval"@).len() == 0
    &&& pool_field_findings(members, "EnemyPool"@).len() == 0
    &&& index_bins_field_findings(members, "EnemyWaveInterval"@).len() == 0
    &&& number_field_findings(members, "EnvironmentalDamageModifier"@).len() == 0
    &&& mule_field_findings(members, "EscortMule"@).len() == 0
    &&& numbers_field_findings(members, "ExtraLargeEnemyDamageResistance"@).len() == 0
    &&& numbers_field_findings(members, "ExtraLargeEnemyDamageResistanceB"@).len() == 0
    &&& numbers_field_findings(members, "ExtraLargeEnemyDamageResistanceC"@).len() == 0
    &&& numbers_field_findings(members, "ExtraLargeEnemyDamageResistanceD"@).len() == 0
    &&& number_field_findings(members, "FriendlyFireModifier"@).len() == 0
    &&& number_field_findings(members, "HazardBonus"@).len() == 0
    &&& number_field_findings(members, "HealthRegenerationMax"@).len() == 0
    &&& indices_field_findings(members, "MaxActiveCritters"@).len() == 0
    &&& index_field_findings(members, "MaxActiveElites"@).len() == 0
    &&& indices_field_findings(members, "MaxActiveEnemies"@).len() == 0
    &&& indices_field_findings(members, "MaxActiveSwarmers"@).len() == 0
    &&& index_range_field_findings(members, "MinPoolSize"@).len() == 0
    &&& text_field_findings(members, "Name"@).len() == 0
    &&& number_field_findings(members, "PointExtractionScalar"@).len() == 0
    &&& number_field_findings(members, "ProjectileSpeedModifier"@).len() == 0
    &&& numbers_field_findings(members, "ResupplyCost"@).len() == 0
    &&& number_field_findings(members, "ReviveHealthRatio"@).len() == 0
    &&& texts_field_findings(members, "SeasonalEvents"@).len() == 0
    &&& numbers_field_findings(members, "SmallEnemyDamageResistance"@).len() == 0
    &&& pool_field_findings(members, "SpecialEnemies"@).len() == 0
    &&& number_field_findings(members, "SpeedModifier"@).len() == 0
    &&& indices_field_findings(members, "StartingNitra"@).len() == 0
    &&& index_bins_field_findings(members, "StationaryDifficulty"@).len() == 0
    &&& pool_field_findings(members, "StationaryEnemies"@).len() == 0
    &&& index_bins_field_findings(members, "StationaryEnemyDiversity"@).len() == 0
    &&& number_bins_field_findings(members, "VeteranLarge"@).len() == 0
    &&& number_bins_field_findings(members, "VeteranNormal"@).len() == 0
    &&& number_field_findings(members, "WaveStartDelayScale"@).len() == 0
}

/// A document that conforms to the schema is decoded without a
/// diagnostic: where no two members have one key, every key is a key of
/// the document, and every value is accepted, the decoder reports nothing.
#[verifier::rlimit(100)]
#[verifier::spinoff_prover]
pub proof fn lemma_conforming_document(members: Seq<Member>, vocabulary: &Vocabulary)
    requires
        members.len() <= usize::MAX,
        keys_distinct(members),
        keys_known(members),
        values_accepted(members, vocabulary),
    ensures
        document_object_findings(members, vocabulary).len() == 0,
{
    reveal(document_object_findings);
    reveal(unknown_in_gap);
    let names = document_names();
    let order = visited(members);
    let all = order.len() as int;
    lemma_document_names_sorted();
    lemma_no_repetition_no_error(members, members.len() as int);
    lemma_visit_order_places(members, members.len() as int);
    lemma_known_members_in_no_gap(members, order, names, None, Some("AttackCooldownModifier"@), all);
    assert(names[0int] == "AttackCooldownModifier"@ && names[0int + 1] == "CommonEnemies"@);
    lemma_known_members_in_no_gap(members, order, names, Some("AttackCooldownModifier"@), Some("CommonEnemies"@), all);
    assert(names[1int] == "CommonEnemies"@ && names[1int + 1] == "Description"@);
    lemma_known_members_in_no_gap(members, order, names, Some("CommonEnemies"@), Some("Description"@), all);
    assert(names[2int] == "Description"@ && names[2int + 1] == "DisruptiveEnemies"@);
    lemma_known_members_in_no_gap(members, order, names, Some("Description"@), Some("DisruptiveEnemies"@), all);
    assert(names[3int] == "DisruptiveEnemies"@ && names[3int + 1] == "DisruptiveEnemyPoolCount"@);
    lemma_known_members_in_no_gap(members, order, names, Some("DisruptiveEnemies"@), Some("DisruptiveEnemyPoolCount"@), all);
    assert(names[4int] == "DisruptiveEnemyPoolCount"@ && names[4int + 1] == "EliteCooldown"@);
    lemma_known_members_in_no_gap(members, order, names, Some("DisruptiveEnemyPoolCount"@), Some("EliteCooldown"@), all);
    assert(names[5int] == "EliteCooldown"@ && names[5int + 1] == "EncounterDifficulty"@);
    lemma_known_members_in_no_gap(members, order, names, Some("EliteCooldown"@), Some("EncounterDifficulty"@), all);
    assert(names[6int] == "EncounterDifficulty"@ && names[6int + 1] == "EnemyCountModifier"@);
    lemma_known_members_in_no_gap(members, order, names, Some("EncounterDifficulty"@), Some("EnemyCountModifier"@), all);
    assert(names[7int] == "EnemyCountModifier"@ && names[7int + 1] == "EnemyDamageModifier"@);
    lemma_known_members_in_no_gap(members, order, names, Some("EnemyCountModifier"@), Some("EnemyDamageModifier"@), all);
    assert(names[8int] == "EnemyDamageModifier"@ && names[8int + 1] == "EnemyDamageResistance"@);
    lemma_known_members_in_no_gap(members, order, names, Some("EnemyDamageModifier"@), Some("EnemyDamageResistance"@), all);
    assert(names[9int] == "EnemyDamageResistance"@ && names[9int + 1] == "EnemyDescriptors"@);
    lemma_known_members_in_no_gap(members, order, names, Some("EnemyDamageResistance"@), Some("EnemyDescriptors"@), all);
    assert(names[10int] == "EnemyDescriptors"@ && names[10int + 1] == "EnemyDiversity"@);
    lemma_known_members_in_no_gap(members, order, names, Some("EnemyDescriptors"@), Some("EnemyDiversity"@), all);
    assert(names[11int] == "EnemyDiversity"@ && names[11int + 1] == "EnemyNormalWaveDifficulty"@);
    lemma_known_members_in_no_gap(members, order, names, Some("EnemyDiversity"@), Some("EnemyNormalWaveDifficulty"@), all);
    assert(names[12int] == "EnemyNormalWaveDifficulty"@ && names[12int + 1] == "EnemyNormalWaveInterval"@);
    lemma_known_members_in_no_gap(members, order, names, Some("EnemyNormalWaveDifficulty"@), Some("EnemyNormalWaveInterval"@), all);
    assert(names[13int] == "EnemyNormalWaveInterval"@ && names[13int + 1] == "EnemyPool"@);
    lemma_known_members_in_no_gap(members, order, names, Some("EnemyNormalWaveInterval"@), Some("EnemyPool"@), all);
    assert(names[14int] == "EnemyPool"@ && names[14int + 1] == "EnemyWaveInterval"@);
    lemma_known_members_in_no_gap(members, order, names, Some("EnemyPool"@), Some("EnemyWaveInterval"@), all);
    assert(names[15int] == "EnemyWaveInterval"@ && names[15int + 1] == "EnvironmentalDamageModifier"@);
    lemma_known_members_in_no_gap(members, order, names, Some("EnemyWaveInterval"@), Some("EnvironmentalDamageModifier"@), all);
    assert(names[16int] == "EnvironmentalDamageModifier"@ && names[16int + 1] == "EscortMule"@);
    lemma_known_members_in_no_gap(members, order, names, Some("EnvironmentalDamageModifier"@), Some("EscortMule"@), all);
    assert(names[17int] == "EscortMule"@ && names[17int + 1] == "ExtraLargeEnemyDamageResistance"@);
    lemma_known_members_in_no_gap(members, order, names, Some("EscortMule"@), Some("ExtraLargeEnemyDamageResistance"@), all);
    assert(names[18int] == "ExtraLargeEnemyDamageResistance"@ && names[18int + 1] == "ExtraLargeEnemyDamageResistanceB"@);
    lemma_known_members_in_no_gap(members, order, names, Some("ExtraLargeEnemyDamageResistance"@), Some("ExtraLargeEnemyDamageResistanceB"@), all);
    assert(names[19int] == "ExtraLargeEnemyDamageResistanceB"@ && names[19int + 1] == "ExtraLargeEnemyDamageResistanceC"@);
    lemma_known_members_in_no_gap(members, order, names, Some("ExtraLargeEnemyDamageResistanceB"@), Some("ExtraLargeEnemyDamageResistanceC"@), all);
    assert(names[20int] == "ExtraLargeEnemyDamageResistanceC"@ && names[20int + 1] == "ExtraLargeEnemyDamageResistanceD"@);
    lemma_known_members_in_no_gap(members, order, names, Some("ExtraLargeEnemyDamageResistanceC"@), Some("ExtraLargeEnemyDamageResistanceD"@), all);
    assert(names[21int] == "ExtraLargeEnemyDamageResistanceD"@ && names[21int + 1] == "FriendlyFireModifier"@);
    lemma_known_members_in_no_gap(members, order, names, Some("ExtraLargeEnemyDamageResistanceD"@), Some("FriendlyFireModifier"@), all);
    assert(names[22int] == "FriendlyFireModifier"@ && names[22int + 1] == "HazardBonus"@);
    lemma_known_members_in_no_gap(members, order, names, Some("FriendlyFireModifier"@), Some("HazardBonus"@), all);
    assert(names[23int] == "HazardBonus"@ && names[23int + 1] == "HealthRegenerationMax"@);
    lemma_known_members_in_no_gap(members, order, names, Some("HazardBonus"@), Some("HealthRegenerationMax"@), all);
    assert(names[24int] == "HealthRegenerationMax"@ && names[24int + 1] == "MaxActiveCritters"@);
    lemma_known_members_in_no_gap(members, order, names, Some("HealthRegenerationMax"@), Some("MaxActiveCritters"@), all);
    assert(names[25int] == "MaxActiveCritters"@ && names[25int + 1] == "MaxActiveElites"@);
    lemma_known_members_in_no_gap(members, order, names, Some("MaxActiveCritters"@), Some("MaxActiveElites"@), all);
    assert(names[26int] == "MaxActiveElites"@ && names[26int + 1] == "MaxActiveEnemies"@);
    lemma_known_members_in_no_gap(members, order, names, Some("MaxActiveElites"@), Some("MaxActiveEnemies"@), all);
    assert(names[27int] == "MaxActiveEnemies"@ && names[27int + 1] == "MaxActiveSwarmers"@);
    lemma_known_members_in_no_gap(members, order, names, Some("MaxActiveEnemies"@), Some("MaxActiveSwarmers"@), all);
    assert(names[28int] == "MaxActiveSwarmers"@ && names[28int + 1] == "MinPoolSize"@);
    lemma_known_members_in_no_gap(members, order, names, Some("MaxActiveSwarmers"@), Some("MinPoolSize"@), all);
    assert(names[29int] == "MinPoolSize"@ && names[29int + 1] == "Name"@);
    lemma_known_members_in_no_gap(members, order, names, Some("MinPoolSize"@), Some("Name"@), all);
    assert(names[30int] == "Name"@ && names[30int + 1] == "PointExtractionScalar"@);
    lemma_known_members_in_no_gap(members, order, names, Some("Name"@), Some("PointExtractionScalar"@), all);
    assert(names[31int] == "PointExtractionScalar"@ && names[31int + 1] == "ProjectileSpeedModifier"@);
    lemma_known_members_in_no_gap(members, order, names, Some("PointExtractionScalar"@), Some("ProjectileSpeedModifier"@), all);
    assert(names[32int] == "ProjectileSpeedModifier"@ && names[32int + 1] == "ResupplyCost"@);
    lemma_known_members_in_no_gap(members, order, names, Some("ProjectileSpeedModifier"@), Some("ResupplyCost"@), all);
    assert(names[33int] == "ResupplyCost"@ && names[33int + 1] == "ReviveHealthRatio"@);
    lemma_known_members_in_no_gap(members, order, names, Some("ResupplyCost"@), Some("ReviveHealthRatio"@), all);
    assert(names[34int] == "ReviveHealthRatio"@ && names[34int + 1] == "SeasonalEvents"@);
    lemma_known_members_in_no_gap(members, order, names, Some("ReviveHealthRatio"@), Some("SeasonalEvents"@), all);
    assert(names[35int] == "SeasonalEvents"@ && names[35int + 1] == "SmallEnemyDamageResistance"@);
    lemma_known_members_in_no_gap(members, order, names, Some("SeasonalEvents"@), Some("SmallEnemyDamageResistance"@), all);
    assert(names[36int] == "SmallEnemyDamageResistance"@ && names[36int + 1] == "SpecialEnemies"@);
    lemma_known_members_in_no_gap(members, order, names, Some("SmallEnemyDamageResistance"@), Some("SpecialEnemies"@), all);
    assert(names[37int] == "SpecialEnemies"@ && names[37int + 1] == "SpeedModifier"@);
    lemma_known_members_in_no_gap(members, order, names, Some("SpecialEnemies"@), Some("SpeedModifier"@), all);
    assert(names[38int] == "SpeedModifier"@ && names[38int + 1] == "StartingNitra"@);
    lemma_known_members_in_no_gap(members, order, names, Some("SpeedModifier"@), Some("StartingNitra"@), all);
    assert(names[39int] == "StartingNitra"@ && names[39int + 1] == "StationaryDifficulty"@);
    lemma_known_members_in_no_gap(members, order, names, Some("StartingNitra"@), Some("StationaryDifficulty"@), all);
    assert(names[40int] == "StationaryDifficulty"@ && names[40int + 1] == "StationaryEnemies"@);
    lemma_known_members_in_no_gap(members, order, names, Some("StationaryDifficulty"@), Some("StationaryEnemies"@), all);
    assert(names[41int] == "StationaryEnemies"@ && names[41int + 1] == "StationaryEnemyDiversity"@);
    lemma_known_members_in_no_gap(members, order, names, Some("StationaryEnemies"@), Some("StationaryEnemyDiversity"@), all);
    assert(names[42int] == "StationaryEnemyDiversity"@ && names[42int + 1] == "VeteranLarge"@);
    lemma_known_members_in_no_gap(members, order, names, Some("StationaryEnemyDiversity"@), Some("VeteranLarge"@), all);
    assert(names[43int] == "VeteranLarge"@ && names[43int + 1] == "VeteranNormal"@);
    lemma_known_members_in_no_gap(members, order, names, Some("VeteranLarge"@), Some("VeteranNormal"@), all);
    assert(names[44int] == "VeteranNormal"@ && names[44int + 1] == "WaveStartDelayScale"@);
    lemma_known_members_in_no_gap(members, order, names, Some("VeteranNormal"@), Some("WaveStartDelayScale"@), all);
    lemma_known_members_in_no_gap(members, order, names, Some("WaveStartDelayScale"@), None, all);
}

} // verus!
