use helldivers::get_faction_distribution;
use helldivers::get_factions;
use helldivers::get_sectors;
use helldivers::get_top_planets_by_player_count;
use helldivers::get_total_player_count;
use helldivers::PlanetInfo;
use helldivers::PlanetStatus;
use helldivers::Position;
use helldivers::Status;
use helldivers::WarInfo;

fn planet_status(index: i64, owner: i64, players: i64) -> PlanetStatus {
    PlanetStatus {
        index,
        owner,
        health: 100,
        regen_per_second: 0.0f64.to_bits(),
        players,
        unknown: Vec::new(),
        planet_name: String::new(),
    }
}

fn status_with(planet_status: Vec<PlanetStatus>) -> Status {
    Status {
        war_id: 801,
        time: 0,
        impact_multiplier: 1.0f64.to_bits(),
        story_beat_id32: 0,
        planet_status,
        planet_attacks: Vec::new(),
        campaigns: Vec::new(),
        global_events: Vec::new(),
        unknown: Vec::new(),
    }
}

fn planet_info(index: i64, sector: i64) -> PlanetInfo {
    PlanetInfo {
        index,
        settings_hash: 0,
        position: Position { x: 0.0f64.to_bits(), y: 0.0f64.to_bits(), unknown: Vec::new() },
        waypoints: Vec::new(),
        sector,
        max_health: 1000,
        disabled: false,
        initial_owner: 1,
        planet_name: String::new(),
        unknown: Vec::new(),
    }
}

fn war_info_with(planet_infos: Vec<PlanetInfo>) -> WarInfo {
    WarInfo {
        war_id: 801,
        start_date: 0,
        end_date: 0,
        minimum_client_version: String::new(),
        planet_infos,
        home_worlds: Vec::new(),
        unknown: Vec::new(),
    }
}

#[test]
fn total_players_is_the_exact_sum() {
    let status = status_with(vec![
        planet_status(0, 1, 50),
        planet_status(1, 2, 25),
        planet_status(2, 1, 1),
    ]);
    assert_eq!(get_total_player_count(&status), 76);
}

#[test]
fn total_players_of_empty_snapshot_is_zero() {
    assert_eq!(get_total_player_count(&status_with(Vec::new())), 0);
}

#[test]
fn top_planets_sorts_by_descending_players() {
    let status = status_with(vec![
        planet_status(0, 1, 10),
        planet_status(1, 1, 50),
        planet_status(2, 2, 5),
        planet_status(3, 2, 30),
    ]);
    let top = get_top_planets_by_player_count(&status, 3);
    assert_eq!(top.len(), 3);
    assert_eq!(top[0].0.index, 1);
    assert_eq!(top[0].1, 50);
    assert_eq!(top[1].0.index, 3);
    assert_eq!(top[1].1, 30);
    assert_eq!(top[2].0.index, 0);
    assert_eq!(top[2].1, 10);
}

#[test]
fn top_planets_keeps_original_order_among_equal_counts() {
    let status = status_with(vec![
        planet_status(7, 1, 20),
        planet_status(8, 1, 20),
        planet_status(9, 1, 30),
        planet_status(10, 1, 20),
    ]);
    let top = get_top_planets_by_player_count(&status, 4);
    let order: Vec<i64> = top.iter().map(|(ps, _)| ps.index).collect();
    assert_eq!(order, vec![9, 7, 8, 10]);
}

#[test]
fn top_planets_truncates_to_count() {
    let status = status_with(vec![planet_status(0, 1, 1), planet_status(1, 1, 2)]);
    assert_eq!(get_top_planets_by_player_count(&status, 0).len(), 0);
    assert_eq!(get_top_planets_by_player_count(&status, 1).len(), 1);
    assert_eq!(get_top_planets_by_player_count(&status, 5).len(), 2);
}

#[test]
fn top_planets_of_empty_snapshot_is_empty() {
    let status = status_with(Vec::new());
    assert!(get_top_planets_by_player_count(&status, 5).is_empty());
}

#[test]
fn faction_distribution_counts_owned_planets() {
    let status = status_with(vec![
        planet_status(0, 1, 0),
        planet_status(1, 1, 0),
        planet_status(2, 2, 0),
    ]);
    let distribution = get_faction_distribution(&status);
    assert_eq!(distribution.len(), 2);
    assert_eq!(distribution.get(&1), Some(&2));
    assert_eq!(distribution.get(&2), Some(&1));
}

#[test]
fn faction_distribution_values_total_the_entry_count() {
    let status = status_with(vec![
        planet_status(0, 1, 0),
        planet_status(1, 2, 0),
        planet_status(2, 1, 0),
        planet_status(3, 3, 0),
        planet_status(4, 3, 0),
    ]);
    let distribution = get_faction_distribution(&status);
    let total: i64 = distribution.values().sum();
    assert_eq!(total, 5);
}

#[test]
fn faction_distribution_of_empty_snapshot_is_empty() {
    assert!(get_faction_distribution(&status_with(Vec::new())).is_empty());
}

#[test]
fn factions_are_sorted_deduplicated_and_named() {
    let status = status_with(vec![
        planet_status(0, 3, 0),
        planet_status(1, 1, 0),
        planet_status(2, 2, 0),
        planet_status(3, 1, 0),
    ]);
    let factions = get_factions(&status);
    assert_eq!(factions.len(), 3);
    assert_eq!(factions[0].id, 1);
    assert_eq!(factions[0].name, "Humans");
    assert_eq!(factions[1].id, 2);
    assert_eq!(factions[1].name, "Bugs");
    assert_eq!(factions[2].id, 3);
    assert_eq!(factions[2].name, "Cyborgs");
}

#[test]
fn unknown_faction_gets_empty_name() {
    let status = status_with(vec![planet_status(0, 77, 0)]);
    let factions = get_factions(&status);
    assert_eq!(factions.len(), 1);
    assert_eq!(factions[0].id, 77);
    assert_eq!(factions[0].name, "");
}

#[test]
fn sectors_group_planets_by_sector_id() {
    let war_info = war_info_with(vec![
        planet_info(3, 0),
        planet_info(1, 0),
        planet_info(2, 5),
        planet_info(1, 0),
    ]);
    let sectors = get_sectors(&war_info);
    assert_eq!(sectors.len(), 2);
    assert_eq!(sectors[0].id, 0);
    assert_eq!(sectors[0].name, "Sol");
    assert_eq!(sectors[0].planets, vec![1, 3]);
    assert_eq!(sectors[1].id, 5);
    assert_eq!(sectors[1].name, "");
    assert_eq!(sectors[1].planets, vec![2]);
}

#[test]
fn every_planet_lands_in_exactly_one_sector() {
    let war_info = war_info_with(vec![
        planet_info(0, 0),
        planet_info(4, 2),
        planet_info(9, 2),
        planet_info(5, 1),
    ]);
    let sectors = get_sectors(&war_info);
    for pi in &war_info.planet_infos {
        let holders: Vec<i64> = sectors
            .iter()
            .filter(|sec| sec.planets.contains(&pi.index))
            .map(|sec| sec.id)
            .collect();
        assert_eq!(holders, vec![pi.sector]);
    }
}

#[test]
fn sectors_of_empty_war_info_are_empty() {
    assert!(get_sectors(&war_info_with(Vec::new())).is_empty());
    assert!(get_factions(&status_with(Vec::new())).is_empty());
}
