//! The Custom Difficulty document as typed data. Every value keeps the span
//! it was read from; a value that the input did not give carries the
//! sentinel span.

use crate::number::Number;
use crate::span::Spanned;
use vstd::prelude::*;
use vstd::string::*;

verus! {

/// One value for every player count, or a value for each.
#[derive(Debug)]
pub enum ArrayOrSingleItem<T> {
    Array(Vec<T>),
    SingleItem(T),
}

/// A range of values. Nothing keeps `min` from exceeding `max`.
#[derive(Debug)]
pub struct Range<T> {
    pub min: Spanned<T>,
    pub max: Spanned<T>,
}

/// A range with the weight with which it is drawn.
#[derive(Debug)]
pub struct WeightedRange<T> {
    pub weight: Spanned<Number>,
    pub range: Spanned<Range<T>>,
}

/// A change to a pool of enemies: it is cleared where `clear` is set, then
/// the descriptors of `add` join it, then those of `remove` leave it.
#[derive(Debug)]
pub struct EnemyPool {
    pub clear: Spanned<bool>,
    pub add: Spanned<Vec<Spanned<String>>>,
    pub remove: Spanned<Vec<Spanned<String>>>,
}

/// How the escort mule takes damage.
#[derive(Debug)]
pub struct EscortMule {
    /// The damage taken from players.
    pub friendly_fire_modifier: Spanned<Number>,
    /// The damage taken from neutral sources.
    pub neutral_damage_modifier: Spanned<Number>,
    /// The damage taken from big hits.
    pub big_hit_damage_modifier: Spanned<Number>,
    /// The damage from which a hit counts as a big hit.
    pub big_hit_damage_reduction_threshold: Spanned<Number>,
}

/// The stats of a pawn by their keys, in the order of the input.
#[derive(Debug)]
pub struct PawnStats(pub Vec<(Spanned<String>, Spanned<Number>)>);

/// An enemy descriptor. `base` names the descriptor that it takes the
/// values from which it does not give itself.
#[derive(Debug)]
pub struct EnemyDescriptor {
    pub base: Spanned<String>,
    pub spawn_spread: Spanned<Number>,
    pub ideal_spawn_size: Spanned<usize>,
    pub can_be_used_for_constant_pressure: Spanned<bool>,
    pub can_be_used_in_encounters: Spanned<bool>,
    pub difficulty_rating: Spanned<Number>,
    pub min_spawn_count: Spanned<usize>,
    pub max_spawn_count: Spanned<usize>,
    pub rarity: Spanned<usize>,
    pub spawn_amount_modifier: Spanned<usize>,
    pub elite: Spanned<bool>,
    pub scale: Spanned<Number>,
    pub time_dilation: Spanned<Number>,
    pub pawn_stats: Spanned<PawnStats>,
}

/// The Custom Difficulty document.
#[derive(Debug)]
pub struct CustomDifficulty {
    pub name: Spanned<String>,
    pub description: Spanned<String>,
    pub max_active_critters: Spanned<ArrayOrSingleItem<usize>>,
    pub max_active_swarmers: Spanned<ArrayOrSingleItem<usize>>,
    pub max_active_enemies: Spanned<ArrayOrSingleItem<usize>>,
    pub resupply_cost: Spanned<ArrayOrSingleItem<Number>>,
    pub starting_nitra: Spanned<ArrayOrSingleItem<usize>>,
    pub extra_large_enemy_damage_resistance: Spanned<ArrayOrSingleItem<Number>>,
    pub extra_large_enemy_damage_resistance_b: Spanned<ArrayOrSingleItem<Number>>,
    pub extra_large_enemy_damage_resistance_c: Spanned<ArrayOrSingleItem<Number>>,
    pub extra_large_enemy_damage_resistance_d: Spanned<ArrayOrSingleItem<Number>>,
    pub enemy_damage_resistance: Spanned<ArrayOrSingleItem<Number>>,
    pub small_enemy_damage_resistance: Spanned<ArrayOrSingleItem<Number>>,
    pub enemy_damage_modifier: Spanned<ArrayOrSingleItem<Number>>,
    pub enemy_count_modifier: Spanned<ArrayOrSingleItem<Number>>,
    pub encounter_difficulty: Spanned<Vec<Spanned<WeightedRange<usize>>>>,
    pub stationary_difficulty: Spanned<Vec<Spanned<WeightedRange<usize>>>>,
    pub enemy_wave_interval: Spanned<Vec<Spanned<WeightedRange<usize>>>>,
    pub enemy_normal_wave_interval: Spanned<Vec<Spanned<WeightedRange<usize>>>>,
    pub enemy_normal_wave_difficulty: Spanned<Vec<Spanned<WeightedRange<usize>>>>,
    pub enemy_diversity: Spanned<Vec<Spanned<WeightedRange<usize>>>>,
    pub stationary_enemy_diversity: Spanned<Vec<Spanned<WeightedRange<usize>>>>,
    pub veteran_normal: Spanned<Vec<Spanned<WeightedRange<Number>>>>,
    pub veteran_large: Spanned<Vec<Spanned<WeightedRange<Number>>>>,
    pub disruptive_enemy_pool_count: Spanned<Range<usize>>,
    pub min_pool_size: Spanned<Range<usize>>,
    pub max_active_elites: Spanned<usize>,
    pub environmental_damage_modifier: Spanned<Number>,
    pub point_extraction_scalar: Spanned<Number>,
    pub hazard_bonus: Spanned<Number>,
    pub friendly_fire_modifier: Spanned<Number>,
    pub wave_start_delay_scale: Spanned<Number>,
    pub speed_modifier: Spanned<Number>,
    pub attack_cooldown_modifier: Spanned<Number>,
    pub projectile_speed_modifier: Spanned<Number>,
    pub health_regeneration_max: Spanned<Number>,
    pub revive_health_ratio: Spanned<Number>,
    pub elite_cooldown: Spanned<usize>,
    pub enemy_descriptors: Spanned<Vec<(Spanned<String>, Spanned<EnemyDescriptor>)>>,
    pub enemy_pool: Spanned<EnemyPool>,
    pub common_enemies: Spanned<EnemyPool>,
    pub disruptive_enemies: Spanned<EnemyPool>,
    pub special_enemies: Spanned<EnemyPool>,
    pub stationary_enemies: Spanned<EnemyPool>,
    pub seasonal_events: Spanned<Vec<Spanned<String>>>,
    pub escort_mule: Spanned<EscortMule>,
}

pub open spec fn default_text(s: Spanned<String>) -> bool {
    s.is_defaulted() && s.val@.len() == 0
}

pub open spec fn default_flag(s: Spanned<bool>) -> bool {
    s.is_defaulted() && !s.val
}

pub open spec fn default_index(s: Spanned<usize>) -> bool {
    s.is_defaulted() && s.val == 0
}

pub open spec fn default_number(s: Spanned<Number>) -> bool {
    s.is_defaulted() && s.val.is_zero() && s.val.wf() && s.val.text@ == "0"@
}

pub open spec fn default_indices(s: Spanned<ArrayOrSingleItem<usize>>) -> bool {
    s.is_defaulted() && s.val == ArrayOrSingleItem::SingleItem(0usize)
}

pub open spec fn default_numbers(s: Spanned<ArrayOrSingleItem<Number>>) -> bool {
    s.is_defaulted() && (s.val matches ArrayOrSingleItem::SingleItem(n) && n.is_zero() && n.wf() && n.text@
        == "0"@)
}

pub open spec fn default_list<T>(s: Spanned<Vec<T>>) -> bool {
    s.is_defaulted() && s.val@.len() == 0
}

pub open spec fn default_index_range(s: Spanned<Range<usize>>) -> bool {
    s.is_defaulted() && default_index(s.val.min) && default_index(s.val.max)
}

pub open spec fn default_pool(s: Spanned<EnemyPool>) -> bool {
    s.is_defaulted() && s.val.is_default()
}

pub open spec fn default_stats(s: Spanned<PawnStats>) -> bool {
    s.is_defaulted() && s.val.0@.len() == 0
}

pub open spec fn default_mule(s: Spanned<EscortMule>) -> bool {
    s.is_defaulted() && s.val.is_default()
}

pub open spec fn default_number_range(s: Spanned<Range<Number>>) -> bool {
    s.is_defaulted() && default_number(s.val.min) && default_number(s.val.max)
}

/// `s` is the defaulted number 0.1.
pub open spec fn default_tenth(s: Spanned<Number>) -> bool {
    default_tenths(s, 49) && s.val.text@ == "0.1"@
}

/// `s` is the defaulted number 0.5.
pub open spec fn default_half(s: Spanned<Number>) -> bool {
    default_tenths(s, 53) && s.val.text@ == "0.5"@
}

/// `s` is the defaulted number with the one digit `digit` behind the point.
pub open spec fn default_tenths(s: Spanned<Number>, digit: u8) -> bool {
    s.is_defaulted() && !s.val.negative && s.val.digits@ == seq![digit] && s.val.exponent == 0
}

impl<T> Range<T> {
    pub fn new(min: Spanned<T>, max: Spanned<T>) -> (r: Range<T>)
        ensures
            r.min == min,
            r.max == max,
    {
        Range { min, max }
    }
}

/// The number with the one digit `digit` behind the point, written `text`.
pub(crate) fn tenths(digit: u8, text: &str) -> (n: Spanned<Number>)
    requires
        49 <= digit <= 57,
    ensures
        default_tenths(n, digit),
        n.val.wf(),
        n.val.text@ == text@,
{
    let mut digits: Vec<u8> = Vec::new();
    digits.push(digit);
    assert(digits@ =~= seq![digit]);
    Spanned::defaulted(Number { negative: false, digits, exponent: 0, text: String::from_str(text) })
}

impl<T: Default> Default for ArrayOrSingleItem<T> {
    /// The one default value for every player count.
    fn default() -> (item: ArrayOrSingleItem<T>)
        ensures
            item is SingleItem,
    {
        ArrayOrSingleItem::SingleItem(T::default())
    }
}

impl<T: Default> Default for Range<T> {
    /// The range between two default values, both with the sentinel span.
    fn default() -> (r: Range<T>)
        ensures
            r.min.is_defaulted(),
            r.max.is_defaulted(),
    {
        Range { min: Spanned::defaulted(T::default()), max: Spanned::defaulted(T::default()) }
    }
}

impl Default for PawnStats {
    /// No stats.
    fn default() -> (stats: PawnStats)
        ensures
            stats.0@.len() == 0,
    {
        PawnStats(Vec::new())
    }
}

impl EnemyPool {
    pub open spec fn is_default(&self) -> bool {
        default_flag(self.clear) && default_list(self.add) && default_list(self.remove)
    }
}

impl Default for EnemyPool {
    /// The change that changes nothing.
    fn default() -> (pool: EnemyPool)
        ensures
            pool.is_default(),
    {
        EnemyPool {
            clear: Spanned::defaulted(false),
            add: Spanned::defaulted(Vec::new()),
            remove: Spanned::defaulted(Vec::new()),
        }
    }
}

impl EscortMule {
    /// A tenth of the damage from players and from neutral sources, half of
    /// that from big hits, and every hit a big hit.
    pub open spec fn is_default(&self) -> bool {
        &&& default_tenth(self.friendly_fire_modifier)
        &&& default_tenth(self.neutral_damage_modifier)
        &&& default_half(self.big_hit_damage_modifier)
        &&& default_number(self.big_hit_damage_reduction_threshold)
    }
}

impl Default for EscortMule {
    fn default() -> (mule: EscortMule)
        ensures
            mule.is_default(),
    {
        EscortMule {
            friendly_fire_modifier: tenths(49, "0.1"),
            neutral_damage_modifier: tenths(49, "0.1"),
            big_hit_damage_modifier: tenths(53, "0.5"),
            big_hit_damage_reduction_threshold: Spanned::defaulted(Number::zero()),
        }
    }
}

impl EnemyDescriptor {
    pub open spec fn is_default(&self) -> bool {
        &&& default_text(self.base)
        &&& default_number(self.spawn_spread)
        &&& default_index(self.ideal_spawn_size)
        &&& default_flag(self.can_be_used_for_constant_pressure)
        &&& default_flag(self.can_be_used_in_encounters)
        &&& default_number(self.difficulty_rating)
        &&& default_index(self.min_spawn_count)
        &&& default_index(self.max_spawn_count)
        &&& default_index(self.rarity)
        &&& default_index(self.spawn_amount_modifier)
        &&& default_flag(self.elite)
        &&& default_number(self.scale)
        &&& default_number(self.time_dilation)
        &&& default_stats(self.pawn_stats)
    }
}

impl Default for EnemyDescriptor {
    /// The descriptor that gives no value.
    fn default() -> (ed: EnemyDescriptor)
        ensures
            ed.is_default(),
    {
        EnemyDescriptor {
            base: Spanned::defaulted(String::new()),
            spawn_spread: Spanned::defaulted(Number::zero()),
            ideal_spawn_size: Spanned::defaulted(0),
            can_be_used_for_constant_pressure: Spanned::defaulted(false),
            can_be_used_in_encounters: Spanned::defaulted(false),
            difficulty_rating: Spanned::defaulted(Number::zero()),
            min_spawn_count: Spanned::defaulted(0),
            max_spawn_count: Spanned::defaulted(0),
            rarity: Spanned::defaulted(0),
            spawn_amount_modifier: Spanned::defaulted(0),
            elite: Spanned::defaulted(false),
            scale: Spanned::defaulted(Number::zero()),
            time_dilation: Spanned::defaulted(Number::zero()),
            pawn_stats: Spanned::defaulted(PawnStats(Vec::new())),
        }
    }
}

impl CustomDifficulty {
    /// Every field has its default and the sentinel span.
    pub open spec fn is_default(&self) -> bool {
        &&& default_text(self.name)
        &&& default_text(self.description)
        &&& default_indices(self.max_active_critters)
        &&& default_indices(self.max_active_swarmers)
        &&& default_indices(self.max_active_enemies)
        &&& default_numbers(self.resupply_cost)
        &&& default_indices(self.starting_nitra)
        &&& default_numbers(self.extra_large_enemy_damage_resistance)
        &&& default_numbers(self.extra_large_enemy_damage_resistance_b)
        &&& default_numbers(self.extra_large_enemy_damage_resistance_c)
        &&& default_numbers(self.extra_large_enemy_damage_resistance_d)
        &&& default_numbers(self.enemy_damage_resistance)
        &&& default_numbers(self.small_enemy_damage_resistance)
        &&& default_numbers(self.enemy_damage_modifier)
        &&& default_numbers(self.enemy_count_modifier)
        &&& default_list(self.encounter_difficulty)
        &&& default_list(self.stationary_difficulty)
        &&& default_list(self.enemy_wave_interval)
        &&& default_list(self.enemy_normal_wave_interval)
        &&& default_list(self.enemy_normal_wave_difficulty)
        &&& default_list(self.enemy_diversity)
        &&& default_list(self.stationary_enemy_diversity)
        &&& default_list(self.veteran_normal)
        &&& default_list(self.veteran_large)
        &&& default_index_range(self.disruptive_enemy_pool_count)
        &&& default_index_range(self.min_pool_size)
        &&& default_index(self.max_active_elites)
        &&& default_number(self.environmental_damage_modifier)
        &&& default_number(self.point_extraction_scalar)
        &&& default_number(self.hazard_bonus)
        &&& default_number(self.friendly_fire_modifier)
        &&& default_number(self.wave_start_delay_scale)
        &&& default_number(self.speed_modifier)
        &&& default_number(self.attack_cooldown_modifier)
        &&& default_number(self.projectile_speed_modifier)
        &&& default_number(self.health_regeneration_max)
        &&& default_number(self.revive_health_ratio)
        &&& default_index(self.elite_cooldown)
        &&& default_list(self.enemy_descriptors)
        &&& default_pool(self.enemy_pool)
        &&& default_pool(self.common_enemies)
        &&& default_pool(self.disruptive_enemies)
        &&& default_pool(self.special_enemies)
        &&& default_pool(self.stationary_enemies)
        &&& default_list(self.seasonal_events)
        &&& default_mule(self.escort_mule)
    }
}

impl Default for CustomDifficulty {
    /// The document that gives no value.
    fn default() -> (cd: CustomDifficulty)
        ensures
            cd.is_default(),
    {
        CustomDifficulty {
            name: Spanned::defaulted(String::new()),
            description: Spanned::defaulted(String::new()),
            max_active_critters: Spanned::defaulted(ArrayOrSingleItem::SingleItem(0)),
            max_active_swarmers: Spanned::defaulted(ArrayOrSingleItem::SingleItem(0)),
            max_active_enemies: Spanned::defaulted(ArrayOrSingleItem::SingleItem(0)),
            resupply_cost: Spanned::defaulted(ArrayOrSingleItem::SingleItem(Number::zero())),
            starting_nitra: Spanned::defaulted(ArrayOrSingleItem::SingleItem(0)),
            extra_large_enemy_damage_resistance: Spanned::defaulted(ArrayOrSingleItem::SingleItem(Number::zero())),
            extra_large_enemy_damage_resistance_b: Spanned::defaulted(ArrayOrSingleItem::SingleItem(Number::zero())),
            extra_large_enemy_damage_resistance_c: Spanned::defaulted(ArrayOrSingleItem::SingleItem(Number::zero())),
            extra_large_enemy_damage_resistance_d: Spanned::defaulted(ArrayOrSingleItem::SingleItem(Number::zero())),
            enemy_damage_resistance: Spanned::defaulted(ArrayOrSingleItem::SingleItem(Number::zero())),
            small_enemy_damage_resistance: Spanned::defaulted(ArrayOrSingleItem::SingleItem(Number::zero())),
            enemy_damage_modifier: Spanned::defaulted(ArrayOrSingleItem::SingleItem(Number::zero())),
            enemy_count_modifier: Spanned::defaulted(ArrayOrSingleItem::SingleItem(Number::zero())),
            encounter_difficulty: Spanned::defaulted(Vec::new()),
            stationary_difficulty: Spanned::defaulted(Vec::new()),
            enemy_wave_interval: Spanned::defaulted(Vec::new()),
            enemy_normal_wave_interval: Spanned::defaulted(Vec::new()),
            enemy_normal_wave_difficulty: Spanned::defaulted(Vec::new()),
            enemy_diversity: Spanned::defaulted(Vec::new()),
            stationary_enemy_diversity: Spanned::defaulted(Vec::new()),
            veteran_normal: Spanned::defaulted(Vec::new()),
            veteran_large: Spanned::defaulted(Vec::new()),
            disruptive_enemy_pool_count: Spanned::defaulted(Range::new(Spanned::defaulted(0), Spanned::defaulted(0))),
            min_pool_size: Spanned::defaulted(Range::new(Spanned::defaulted(0), Spanned::defaulted(0))),
            max_active_elites: Spanned::defaulted(0),
            environmental_damage_modifier: Spanned::defaulted(Number::zero()),
            point_extraction_scalar: Spanned::defaulted(Number::zero()),
            hazard_bonus: Spanned::defaulted(Number::zero()),
            friendly_fire_modifier: Spanned::defaulted(Number::zero()),
            wave_start_delay_scale: Spanned::defaulted(Number::zero()),
            speed_modifier: Spanned::defaulted(Number::zero()),
            attack_cooldown_modifier: Spanned::defaulted(Number::zero()),
            projectile_speed_modifier: Spanned::defaulted(Number::zero()),
            health_regeneration_max: Spanned::defaulted(Number::zero()),
            revive_health_ratio: Spanned::defaulted(Number::zero()),
            elite_cooldown: Spanned::defaulted(0),
            enemy_descriptors: Spanned::defaulted(Vec::new()),
            enemy_pool: Spanned::defaulted(EnemyPool::default()),
            common_enemies: Spanned::defaulted(EnemyPool::default()),
            disruptive_enemies: Spanned::defaulted(EnemyPool::default()),
            special_enemies: Spanned::defaulted(EnemyPool::default()),
            stationary_enemies: Spanned::defaulted(EnemyPool::default()),
            seasonal_events: Spanned::defaulted(Vec::new()),
            escort_mule: Spanned::defaulted(EscortMule::default()),
        }
    }
}

} // verus!
