//! The record types of the war-status API.
//!
//! Fields that the wire payload carries as floating-point numbers
//! (`impactMultiplier`, `regenPerSecond`, planet positions) are held here as
//! their raw IEEE-754 bit patterns in a `u64`; the enrichment and aggregation
//! logic never reads them, it only carries them through.
//!
//! Payload fields that are not modelled explicitly are preserved per record in
//! `unknown`, as pairs of field name and raw value text, rather than dropped:
//! additions to the upstream schema must never break the client.
//!
//! The derived `planet_name`, `source_name` and `target_name` fields are not
//! part of the wire payload: they are populated by the enrichment pass alone.

use vstd::prelude::*;

verus! {

/// A planet of the static reference dataset.
pub struct Planet {
    pub id: i64,
    pub name: String,
}

/// A faction of the static reference dataset.
pub struct Faction {
    pub id: i64,
    pub name: String,
}

/// A sector: its id, its display name, and the planet indices that belong to
/// it. Sectors reconstructed from a live war-info response reflect the
/// currently fetched world; the static table is a name fallback only.
pub struct Sector {
    pub id: i64,
    pub name: String,
    pub planets: Vec<i64>,
}

/// The war clock: a single integer value.
pub struct WarTime {
    pub time: i64,
}

/// One entry of the news feed. Not name-enriched.
pub struct NewsItem {
    pub id: i64,
    pub published: i64,
    pub news_type: i64,
    pub tag_ids: Vec<String>,
    pub message: String,
    pub unknown: Vec<(String, String)>,
}

/// A global event of a war snapshot. Not name-enriched.
pub struct GlobalEvent {
    pub event_id: i64,
    pub id32: i64,
    pub portrait_id32: i64,
    pub title: String,
    pub title_id32: i64,
    pub message: String,
    pub message_id32: i64,
    pub race: i64,
    pub flag: i64,
    pub assignment_id32: i64,
    pub unknown: Vec<(String, String)>,
}

/// A campaign of a war snapshot; `campaign_type` is the payload's `type`
/// field. `planet_name` is derived.
pub struct Campaign {
    pub id: i64,
    pub planet_index: i64,
    pub campaign_type: i64,
    pub count: i64,
    pub unknown: Vec<(String, String)>,
    pub planet_name: String,
}

/// An attack between two planets. `source_name` and `target_name` are derived.
pub struct PlanetAttack {
    pub source: i64,
    pub target: i64,
    pub unknown: Vec<(String, String)>,
    pub source_name: String,
    pub target_name: String,
}

/// The live state of one planet. `regen_per_second` holds the raw bits of the
/// payload's floating-point value. `planet_name` is derived.
pub struct PlanetStatus {
    pub index: i64,
    pub owner: i64,
    pub health: i64,
    pub regen_per_second: u64,
    pub players: i64,
    pub unknown: Vec<(String, String)>,
    pub planet_name: String,
}

/// A war snapshot. `impact_multiplier` holds the raw bits of the payload's
/// floating-point value.
pub struct Status {
    pub war_id: i64,
    pub time: i64,
    pub impact_multiplier: u64,
    pub story_beat_id32: i64,
    pub planet_status: Vec<PlanetStatus>,
    pub planet_attacks: Vec<PlanetAttack>,
    pub campaigns: Vec<Campaign>,
    pub global_events: Vec<GlobalEvent>,
    pub unknown: Vec<(String, String)>,
}

/// A planet position; `x` and `y` hold the raw bits of the payload's
/// floating-point coordinates.
pub struct Position {
    pub x: u64,
    pub y: u64,
    pub unknown: Vec<(String, String)>,
}

/// The war metadata of one planet. `planet_name` is derived.
pub struct PlanetInfo {
    pub index: i64,
    pub settings_hash: i64,
    pub position: Position,
    pub waypoints: Vec<i64>,
    pub sector: i64,
    pub max_health: i64,
    pub disabled: bool,
    pub initial_owner: i64,
    pub planet_name: String,
    pub unknown: Vec<(String, String)>,
}

/// The home world or worlds of one race.
pub struct HomeWorld {
    pub race: i64,
    pub planet_indices: Vec<i64>,
    pub unknown: Vec<(String, String)>,
}

/// The metadata of a war.
pub struct WarInfo {
    pub war_id: i64,
    pub start_date: i64,
    pub end_date: i64,
    pub minimum_client_version: String,
    pub planet_infos: Vec<PlanetInfo>,
    pub home_worlds: Vec<HomeWorld>,
    pub unknown: Vec<(String, String)>,
}

} // verus!
