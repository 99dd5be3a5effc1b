use helldivers::get_faction_name;
use helldivers::get_planet_name;
use helldivers::get_sector_name;
use helldivers::load_factions;
use helldivers::load_planets;
use helldivers::load_sectors;
use helldivers::parse_planets;

#[test]
fn test_load_planets() {
    assert!(load_planets().unwrap().len() > 0);
}

#[test]
fn test_load_factions() {
    assert!(load_factions().unwrap().len() > 0);
}

#[test]
fn test_load_sectors() {
    assert!(load_sectors().unwrap().len() > 0);
}

#[test]
fn test_get_planet_name() {
    assert_eq!(get_planet_name(0).unwrap_or_default(), "Super Earth");
}

#[test]
fn test_get_faction_name() {
    assert_eq!(get_faction_name(1).unwrap_or_default(), "Humans");
}

#[test]
fn test_get_sector_name() {
    assert_eq!(get_sector_name(0).unwrap_or_default(), "Sol");
}

#[test]
fn absent_ids_are_absent_not_defaulted() {
    assert!(get_planet_name(123456).is_none());
    assert!(get_faction_name(-1).is_none());
    assert!(get_sector_name(999).is_none());
}

#[test]
fn parse_planets_reads_keys_and_names() {
    let table = parse_planets("\"7\" = \"Mort\"\n\"12\" = \"Angel's Venture\"\n").unwrap();
    assert_eq!(table.len(), 2);
    assert_eq!(table.get(&7).unwrap().name, "Mort");
    assert_eq!(table.get(&7).unwrap().id, 7);
    assert_eq!(table.get(&12).unwrap().name, "Angel's Venture");
    assert!(table.get(&0).is_none());
}

#[test]
fn parse_planets_rejects_bad_toml() {
    assert!(parse_planets("this is not = = toml").is_none());
}

#[test]
fn parse_planets_rejects_non_numeric_key() {
    assert!(parse_planets("\"seven\" = \"Mort\"\n").is_none());
}

#[test]
fn parse_planets_empty_table() {
    let table = parse_planets("").unwrap();
    assert_eq!(table.len(), 0);
}
