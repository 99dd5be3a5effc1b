use helldivers::enrich_status;
use helldivers::enrich_war_info;
use helldivers::parse_planets;
use helldivers::Campaign;
use helldivers::PlanetAttack;
use helldivers::PlanetInfo;
use helldivers::PlanetStatus;
use helldivers::Position;
use helldivers::Status;
use helldivers::WarInfo;

fn planet_status(index: i64, owner: i64, health: i64, regen: f64, players: i64) -> PlanetStatus {
    PlanetStatus {
        index,
        owner,
        health,
        regen_per_second: regen.to_bits(),
        players,
        unknown: Vec::new(),
        planet_name: String::new(),
    }
}

fn empty_status() -> Status {
    Status {
        war_id: 801,
        time: 1000,
        impact_multiplier: 1.0f64.to_bits(),
        story_beat_id32: 0,
        planet_status: Vec::new(),
        planet_attacks: Vec::new(),
        campaigns: Vec::new(),
        global_events: Vec::new(),
        unknown: Vec::new(),
    }
}

fn planet_info(index: i64, sector: i64) -> PlanetInfo {
    PlanetInfo {
        index,
        settings_hash: 0,
        position: Position { x: 0.0f64.to_bits(), y: 0.0f64.to_bits(), unknown: Vec::new() },
        waypoints: Vec::new(),
        sector,
        max_health: 1000,
        disabled: false,
        initial_owner: 1,
        planet_name: String::new(),
        unknown: Vec::new(),
    }
}

#[test]
fn status_round_trip_known_planet() {
    let planets = parse_planets("\"1\" = \"Super Earth\"\n").unwrap();
    let mut status = empty_status();
    status.planet_status.push(planet_status(1, 1, 100, 0.5, 50));
    let status = enrich_status(status, &planets);
    assert_eq!(status.planet_status[0].planet_name, "Super Earth");
    assert_eq!(status.planet_status[0].index, 1);
    assert_eq!(status.planet_status[0].owner, 1);
    assert_eq!(status.planet_status[0].health, 100);
    assert_eq!(f64::from_bits(status.planet_status[0].regen_per_second), 0.5);
    assert_eq!(status.planet_status[0].players, 50);
}

#[test]
fn status_round_trip_unknown_planet() {
    let planets = parse_planets("").unwrap();
    let mut status = empty_status();
    status.planet_status.push(planet_status(1, 1, 100, 0.5, 50));
    let status = enrich_status(status, &planets);
    assert_eq!(status.planet_status[0].planet_name, "");
}

#[test]
fn campaigns_and_attacks_get_names() {
    let planets = parse_planets("\"3\" = \"Mort\"\n\"4\" = \"Ingmar\"\n").unwrap();
    let mut status = empty_status();
    status.campaigns.push(Campaign {
        id: 9,
        planet_index: 4,
        campaign_type: 0,
        count: 1,
        unknown: Vec::new(),
        planet_name: String::new(),
    });
    status.planet_attacks.push(PlanetAttack {
        source: 3,
        target: 4,
        unknown: Vec::new(),
        source_name: String::new(),
        target_name: String::new(),
    });
    status.planet_attacks.push(PlanetAttack {
        source: 4,
        target: 77,
        unknown: Vec::new(),
        source_name: String::new(),
        target_name: String::new(),
    });
    let status = enrich_status(status, &planets);
    assert_eq!(status.campaigns[0].planet_name, "Ingmar");
    assert_eq!(status.campaigns[0].id, 9);
    assert_eq!(status.planet_attacks[0].source_name, "Mort");
    assert_eq!(status.planet_attacks[0].target_name, "Ingmar");
    assert_eq!(status.planet_attacks[1].source_name, "Ingmar");
    assert_eq!(status.planet_attacks[1].target_name, "");
}

#[test]
fn unknown_fields_survive_enrichment() {
    let planets = parse_planets("").unwrap();
    let mut status = empty_status();
    let mut ps = planet_status(1, 1, 100, 0.0, 0);
    ps.unknown.push((String::from("newUpstreamField"), String::from("42")));
    status.planet_status.push(ps);
    status.unknown.push((String::from("topLevel"), String::from("\"kept\"")));
    let status = enrich_status(status, &planets);
    assert_eq!(status.planet_status[0].unknown[0].0, "newUpstreamField");
    assert_eq!(status.planet_status[0].unknown[0].1, "42");
    assert_eq!(status.unknown[0].0, "topLevel");
}

#[test]
fn war_info_round_trip() {
    let planets = parse_planets("\"0\" = \"Super Earth\"\n").unwrap();
    let war_info = WarInfo {
        war_id: 801,
        start_date: 1,
        end_date: 2,
        minimum_client_version: String::from("0.3.0"),
        planet_infos: vec![planet_info(0, 0), planet_info(5, 2)],
        home_worlds: Vec::new(),
        unknown: Vec::new(),
    };
    let war_info = enrich_war_info(war_info, &planets);
    assert_eq!(war_info.planet_infos[0].planet_name, "Super Earth");
    assert_eq!(war_info.planet_infos[1].planet_name, "");
    assert_eq!(war_info.planet_infos[1].sector, 2);
    assert_eq!(war_info.minimum_client_version, "0.3.0");
}
