//! A client library for the Helldivers war-status API: endpoint URLs and
//! response classification for the four fetch operations, immutable
//! id-to-name reference tables built from bundled data, an enrichment pass
//! that stamps derived name fields onto freshly fetched records, and pure
//! aggregation queries over enriched data. The HTTPS transport and the JSON
//! wire decoding live outside the library and hand it plain records.

use vstd::prelude::*;

pub mod enrich;
pub mod error;
pub mod languages;
pub mod models;
pub mod numbers;
pub mod requests;
pub mod tables;
pub mod utils;

pub use enrich::enrich_status;
pub use enrich::enrich_war_info;
pub use requests::classify_response;
pub use requests::news_feed_url;
pub use requests::status_url;
pub use requests::war_info_url;
pub use requests::war_time_url;
pub use tables::parse_factions;
pub use tables::parse_planets;
pub use tables::parse_sectors;
pub use utils::get_faction_distribution;
pub use utils::get_factions;
pub use utils::get_sectors;
pub use utils::get_top_planets_by_player_count;
pub use utils::get_total_player_count;

pub use tables::load_factions;
pub use tables::load_planets;
pub use tables::load_sectors;

pub use error::HelldiversError;
pub use languages::Language;
pub use models::Campaign;
pub use models::Faction;
pub use models::GlobalEvent;
pub use models::HomeWorld;
pub use models::NewsItem;
pub use models::Planet;
pub use models::PlanetAttack;
pub use models::PlanetInfo;
pub use models::PlanetStatus;
pub use models::Position;
pub use models::Sector;
pub use models::Status;
pub use models::WarInfo;
pub use models::WarTime;

verus! {

/// The base URL for the Helldivers API.
pub const BASE_URL: &'static str = "https://api.live.prod.thehelldiversgame.com/api";

/// Get the name of a planet, absent when the id is not in the bundled table:
/// never a default name baked into the logic.
pub fn get_planet_name(id: i64) -> (r: Option<String>)
    ensures
        r is Some <==> (tables::planets_table() matches Some(t) && t.contains_key(id)),
        r matches Some(name) ==> name@ == tables::planets_table().unwrap()[id],
{
    match tables::load_planets() {
        None => None,
        Some(m) => match m.get(&id) {
            Some(p) => Some(p.name.clone()),
            None => None,
        },
    }
}

/// Get the name of a faction, absent when the id is not in the bundled table.
pub fn get_faction_name(id: i64) -> (r: Option<String>)
    ensures
        r is Some <==> (tables::factions_table() matches Some(t) && t.contains_key(id)),
        r matches Some(name) ==> name@ == tables::factions_table().unwrap()[id],
{
    match tables::load_factions() {
        None => None,
        Some(m) => match m.get(&id) {
            Some(f) => Some(f.name.clone()),
            None => None,
        },
    }
}

/// Get the name of a sector, absent when the id is not in the bundled table.
pub fn get_sector_name(id: i64) -> (r: Option<String>)
    ensures
        r is Some <==> (tables::sectors_table() matches Some(t) && t.contains_key(id)),
        r matches Some(name) ==> name@ == tables::sectors_table().unwrap()[id],
{
    match tables::load_sectors() {
        None => None,
        Some(m) => match m.get(&id) {
            Some(s) => Some(s.name.clone()),
            None => None,
        },
    }
}

} // verus!
