//! The enrichment pass: walk a freshly fetched record's collections and stamp
//! the derived name fields from the planet table. Missing lookups degrade to
//! an empty name rather than failing the response; every other field is left
//! exactly as it was.

use vstd::prelude::*;
use std::collections::HashMap;
use crate::models::Campaign;
use crate::models::Planet;
use crate::models::PlanetAttack;
use crate::models::PlanetInfo;
use crate::models::PlanetStatus;
use crate::models::Status;
use crate::models::WarInfo;
use crate::tables::name_or_empty;
use crate::tables::planet_names;

verus! {

/// The name a planet map gives an id, or the empty string where absent.
fn planet_name_or_empty(planets: &HashMap<i64, Planet>, id: i64) -> (r: String)
    ensures
        r@ == name_or_empty(planet_names(planets@), id),
{
    match planets.get(&id) {
        Some(p) => p.name.clone(),
        None => String::new(),
    }
}

/// An enriched campaign: `planet_name` looked up from `planet_index`, all
/// other fields unchanged.
pub open spec fn enriched_campaign(o: Campaign, n: Campaign, t: Map<i64, Seq<char>>) -> bool {
    &&& n.id == o.id
    &&& n.planet_index == o.planet_index
    &&& n.campaign_type == o.campaign_type
    &&& n.count == o.count
    &&& n.unknown == o.unknown
    &&& n.planet_name@ == name_or_empty(t, o.planet_index)
}

pub open spec fn enriched_campaigns(
    o: Seq<Campaign>,
    n: Seq<Campaign>,
    t: Map<i64, Seq<char>>,
) -> bool {
    &&& n.len() == o.len()
    &&& forall|k: int| 0 <= k < o.len() ==> enriched_campaign(o[k], #[trigger] n[k], t)
}

/// An enriched attack: `source_name` and `target_name` looked up, all other
/// fields unchanged.
pub open spec fn enriched_attack(o: PlanetAttack, n: PlanetAttack, t: Map<i64, Seq<char>>) -> bool {
    &&& n.source == o.source
    &&& n.target == o.target
    &&& n.unknown == o.unknown
    &&& n.source_name@ == name_or_empty(t, o.source)
    &&& n.target_name@ == name_or_empty(t, o.target)
}

pub open spec fn enriched_attacks(
    o: Seq<PlanetAttack>,
    n: Seq<PlanetAttack>,
    t: Map<i64, Seq<char>>,
) -> bool {
    &&& n.len() == o.len()
    &&& forall|k: int| 0 <= k < o.len() ==> enriched_attack(o[k], #[trigger] n[k], t)
}

/// An enriched planet status: `planet_name` looked up from `index`, all other
/// fields unchanged.
pub open spec fn enriched_planet_status(
    o: PlanetStatus,
    n: PlanetStatus,
    t: Map<i64, Seq<char>>,
) -> bool {
    &&& n.index == o.index
    &&& n.owner == o.owner
    &&& n.health == o.health
    &&& n.regen_per_second == o.regen_per_second
    &&& n.players == o.players
    &&& n.unknown == o.unknown
    &&& n.planet_name@ == name_or_empty(t, o.index)
}

pub open spec fn enriched_planet_statuses(
    o: Seq<PlanetStatus>,
    n: Seq<PlanetStatus>,
    t: Map<i64, Seq<char>>,
) -> bool {
    &&& n.len() == o.len()
    &&& forall|k: int| 0 <= k < o.len() ==> enriched_planet_status(o[k], #[trigger] n[k], t)
}

/// An enriched planet info: `planet_name` looked up from `index`, all other
/// fields unchanged.
pub open spec fn enriched_planet_info(
    o: PlanetInfo,
    n: PlanetInfo,
    t: Map<i64, Seq<char>>,
) -> bool {
    &&& n.index == o.index
    &&& n.settings_hash == o.settings_hash
    &&& n.position == o.position
    &&& n.waypoints == o.waypoints
    &&& n.sector == o.sector
    &&& n.max_health == o.max_health
    &&& n.disabled == o.disabled
    &&& n.initial_owner == o.initial_owner
    &&& n.unknown == o.unknown
    &&& n.planet_name@ == name_or_empty(t, o.index)
}

pub open spec fn enriched_planet_infos(
    o: Seq<PlanetInfo>,
    n: Seq<PlanetInfo>,
    t: Map<i64, Seq<char>>,
) -> bool {
    &&& n.len() == o.len()
    &&& forall|k: int| 0 <= k < o.len() ==> enriched_planet_info(o[k], #[trigger] n[k], t)
}

fn enrich_campaigns(v: Vec<Campaign>, planets: &HashMap<i64, Planet>) -> (r: Vec<Campaign>)
    ensures
        enriched_campaigns(v@, r@, planet_names(planets@)),
{
    let ghost orig = v@;
    let mut src = v;
    let mut out: Vec<Campaign> = Vec::new();
    while src.len() > 0
        invariant
            orig.len() == out@.len() + src@.len(),
            src@ == orig.subrange(out@.len() as int, orig.len() as int),
            forall|k: int|
                0 <= k < out@.len() ==> enriched_campaign(
                    orig[k],
                    #[trigger] out@[k],
                    planet_names(planets@),
                ),
        decreases src@.len(),
    {
        let mut c = src.remove(0);
        c.planet_name = planet_name_or_empty(planets, c.planet_index);
        out.push(c);
        proof {
            assert(src@ =~= orig.subrange(out@.len() as int, orig.len() as int));
        }
    }
    out
}

fn enrich_attacks(v: Vec<PlanetAttack>, planets: &HashMap<i64, Planet>) -> (r: Vec<PlanetAttack>)
    ensures
        enriched_attacks(v@, r@, planet_names(planets@)),
{
    let ghost orig = v@;
    let mut src = v;
    let mut out: Vec<PlanetAttack> = Vec::new();
    while src.len() > 0
        invariant
            orig.len() == out@.len() + src@.len(),
            src@ == orig.subrange(out@.len() as int, orig.len() as int),
            forall|k: int|
                0 <= k < out@.len() ==> enriched_attack(
                    orig[k],
                    #[trigger] out@[k],
                    planet_names(planets@),
                ),
        decreases src@.len(),
    {
        let mut a = src.remove(0);
        a.source_name = planet_name_or_empty(planets, a.source);
        a.target_name = planet_name_or_empty(planets, a.target);
        out.push(a);
        proof {
            assert(src@ =~= orig.subrange(out@.len() as int, orig.len() as int));
        }
    }
    out
}

fn enrich_planet_statuses(
    v: Vec<PlanetStatus>,
    planets: &HashMap<i64, Planet>,
) -> (r: Vec<PlanetStatus>)
    ensures
        enriched_planet_statuses(v@, r@, planet_names(planets@)),
{
    let ghost orig = v@;
    let mut src = v;
    let mut out: Vec<PlanetStatus> = Vec::new();
    while src.len() > 0
        invariant
            orig.len() == out@.len() + src@.len(),
            src@ == orig.subrange(out@.len() as int, orig.len() as int),
            forall|k: int|
                0 <= k < out@.len() ==> enriched_planet_status(
                    orig[k],
                    #[trigger] out@[k],
                    planet_names(planets@),
                ),
        decreases src@.len(),
    {
        let mut ps = src.remove(0);
        ps.planet_name = planet_name_or_empty(planets, ps.index);
        out.push(ps);
        proof {
            assert(src@ =~= orig.subrange(out@.len() as int, orig.len() as int));
        }
    }
    out
}

fn enrich_planet_infos(
    v: Vec<PlanetInfo>,
    planets: &HashMap<i64, Planet>,
) -> (r: Vec<PlanetInfo>)
    ensures
        enriched_planet_infos(v@, r@, planet_names(planets@)),
{
    let ghost orig = v@;
    let mut src = v;
    let mut out: Vec<PlanetInfo> = Vec::new();
    while src.len() > 0
        invariant
            orig.len() == out@.len() + src@.len(),
            src@ == orig.subrange(out@.len() as int, orig.len() as int),
            forall|k: int|
                0 <= k < out@.len() ==> enriched_planet_info(
                    orig[k],
                    #[trigger] out@[k],
                    planet_names(planets@),
                ),
        decreases src@.len(),
    {
        let mut pi = src.remove(0);
        pi.planet_name = planet_name_or_empty(planets, pi.index);
        out.push(pi);
        proof {
            assert(src@ =~= orig.subrange(out@.len() as int, orig.len() as int));
        }
    }
    out
}

/// An enriched status: every campaign, attack and planet status carries its
/// looked-up name, everything else is unchanged.
pub open spec fn enriched_status(o: Status, n: Status, t: Map<i64, Seq<char>>) -> bool {
    &&& n.war_id == o.war_id
    &&& n.time == o.time
    &&& n.impact_multiplier == o.impact_multiplier
    &&& n.story_beat_id32 == o.story_beat_id32
    &&& n.global_events == o.global_events
    &&& n.unknown == o.unknown
    &&& enriched_planet_statuses(o.planet_status@, n.planet_status@, t)
    &&& enriched_attacks(o.planet_attacks@, n.planet_attacks@, t)
    &&& enriched_campaigns(o.campaigns@, n.campaigns@, t)
}

/// Enrich a freshly deserialized war snapshot against the planet table; the
/// caller never sees a non-enriched record.
pub fn enrich_status(status: Status, planets: &HashMap<i64, Planet>) -> (r: Status)
    ensures
        enriched_status(status, r, planet_names(planets@)),
{
    let Status {
        war_id,
        time,
        impact_multiplier,
        story_beat_id32,
        planet_status,
        planet_attacks,
        campaigns,
        global_events,
        unknown,
    } = status;
    let planet_status = enrich_planet_statuses(planet_status, planets);
    let planet_attacks = enrich_attacks(planet_attacks, planets);
    let campaigns = enrich_campaigns(campaigns, planets);
    Status {
        war_id,
        time,
        impact_multiplier,
        story_beat_id32,
        planet_status,
        planet_attacks,
        campaigns,
        global_events,
        unknown,
    }
}

/// An enriched war info: every planet info carries its looked-up name,
/// everything else is unchanged.
pub open spec fn enriched_war_info(o: WarInfo, n: WarInfo, t: Map<i64, Seq<char>>) -> bool {
    &&& n.war_id == o.war_id
    &&& n.start_date == o.start_date
    &&& n.end_date == o.end_date
    &&& n.minimum_client_version == o.minimum_client_version
    &&& n.home_worlds == o.home_worlds
    &&& n.unknown == o.unknown
    &&& enriched_planet_infos(o.planet_infos@, n.planet_infos@, t)
}

/// Enrich a freshly deserialized war info against the planet table.
pub fn enrich_war_info(war_info: WarInfo, planets: &HashMap<i64, Planet>) -> (r: WarInfo)
    ensures
        enriched_war_info(war_info, r, planet_names(planets@)),
{
    let WarInfo {
        war_id,
        start_date,
        end_date,
        minimum_client_version,
        planet_infos,
        home_worlds,
        unknown,
    } = war_info;
    let planet_infos = enrich_planet_infos(planet_infos, planets);
    WarInfo {
        war_id,
        start_date,
        end_date,
        minimum_client_version,
        planet_infos,
        home_worlds,
        unknown,
    }
}

} // verus!
