//! The reference data store: three immutable id-to-name tables (planets,
//! factions, sectors), built from bundled TOML texts and read-only
//! thereafter.
//!
//! The TOML storage format is an external collaborator: one trusted wrapper
//! turns a text into string key/value pairs. The build itself is verified:
//! every string key is parsed into an `i64`, duplicate ids overwrite silently
//! (last write wins), and a malformed numeric key makes the whole build fail
//! rather than yield a partial table.

use vstd::prelude::*;
use std::collections::HashMap;
use crate::models::Faction;
use crate::models::Planet;
use crate::models::Sector;
use crate::numbers::parse_i64;
use crate::numbers::parse_i64_spec;

verus! {

/// Bundled reference data: planet ids and display names.
pub const RAW_PLANETS: &'static str = "\"0\" = \"Super Earth\"\n";

/// Bundled reference data: faction ids and display names.
pub const RAW_FACTIONS: &'static str =
    "\"1\" = \"Humans\"\n\"2\" = \"Bugs\"\n\"3\" = \"Cyborgs\"\n\"4\" = \"Illuminate\"\n";

/// Bundled reference data: sector ids and display names.
pub const RAW_SECTORS: &'static str = "\"0\" = \"Sol\"\n";

/// The key/value pairs a TOML text holds, in ascending key order, or `None`
/// when the text is not a well-formed TOML table of strings. A function of
/// the text alone.
pub uninterp spec fn toml_pairs(text: Seq<char>) -> Option<Seq<(Seq<char>, Seq<char>)>>;

pub open spec fn pairs_view(v: Seq<(String, String)>) -> Seq<(Seq<char>, Seq<char>)> {
    v.map_values(|p: (String, String)| (p.0@, p.1@))
}

/// Relies on toml::from_str, deserializing into an ordered map from string
/// keys to string values: the resulting pairs are a function of the text
/// alone, and parsing fails exactly when the text is not such a table.
#[verifier::external_body]
fn parse_string_table(text: &str) -> (r: Option<Vec<(String, String)>>)
    ensures
        r is Some <==> toml_pairs(text@) is Some,
        r matches Some(v) ==> pairs_view(v@) == toml_pairs(text@).unwrap(),
{
    match toml::from_str::<std::collections::BTreeMap<String, String>>(text) {
        Ok(m) => Some(m.into_iter().collect()),
        Err(_) => None,
    }
}

/// The id-to-name mapping that a sequence of string pairs denotes: keys are
/// parsed as decimal integers, later pairs overwrite earlier ones, and one
/// malformed key spoils the whole table.
pub open spec fn build_table(pairs: Seq<(Seq<char>, Seq<char>)>) -> Option<Map<i64, Seq<char>>>
    decreases pairs.len(),
{
    if pairs.len() == 0 {
        Some(Map::empty())
    } else {
        match build_table(pairs.drop_last()) {
            None => None,
            Some(m) => match parse_i64_spec(pairs.last().0) {
                None => None,
                Some(id) => Some(m.insert(id, pairs.last().1)),
            },
        }
    }
}

/// The table a TOML text denotes, if it is well-formed.
pub open spec fn table_of(text: Seq<char>) -> Option<Map<i64, Seq<char>>> {
    match toml_pairs(text) {
        None => None,
        Some(pairs) => build_table(pairs),
    }
}

/// The bundled planet table.
pub open spec fn planets_table() -> Option<Map<i64, Seq<char>>> {
    table_of(RAW_PLANETS@)
}

/// The bundled faction table.
pub open spec fn factions_table() -> Option<Map<i64, Seq<char>>> {
    table_of(RAW_FACTIONS@)
}

/// The bundled sector table.
pub open spec fn sectors_table() -> Option<Map<i64, Seq<char>>> {
    table_of(RAW_SECTORS@)
}

/// The name a table gives an id, or the empty string where the id is absent:
/// enrichment is best-effort and never fails.
pub open spec fn name_or_empty(t: Map<i64, Seq<char>>, id: i64) -> Seq<char> {
    if t.contains_key(id) {
        t[id]
    } else {
        Seq::empty()
    }
}

/// The bundled planet name of an id, or empty.
pub open spec fn static_planet_name(id: i64) -> Seq<char> {
    match planets_table() {
        Some(t) => name_or_empty(t, id),
        None => Seq::empty(),
    }
}

/// The bundled faction name of an id, or empty.
pub open spec fn static_faction_name(id: i64) -> Seq<char> {
    match factions_table() {
        Some(t) => name_or_empty(t, id),
        None => Seq::empty(),
    }
}

/// The bundled sector name of an id, or empty.
pub open spec fn static_sector_name(id: i64) -> Seq<char> {
    match sectors_table() {
        Some(t) => name_or_empty(t, id),
        None => Seq::empty(),
    }
}

/// One malformed key anywhere spoils the whole table.
proof fn lemma_build_table_none(pairs: Seq<(Seq<char>, Seq<char>)>, j: int)
    requires
        0 <= j < pairs.len(),
        parse_i64_spec(pairs[j].0) is None,
    ensures
        build_table(pairs) is None,
    decreases pairs.len(),
{
    if j == pairs.len() - 1 {
    } else {
        lemma_build_table_none(pairs.drop_last(), j);
    }
}

/// The names of a planet map, as a mathematical map.
pub open spec fn planet_names(m: Map<i64, Planet>) -> Map<i64, Seq<char>> {
    Map::new(|id: i64| m.contains_key(id), |id: i64| m[id].name@)
}

/// A planet map that realizes a name table: same ids, same names, and each
/// entry keyed by its own id.
pub open spec fn is_planet_table(m: Map<i64, Planet>, t: Map<i64, Seq<char>>) -> bool {
    &&& planet_names(m) == t
    &&& forall|id: i64| #[trigger] m.contains_key(id) ==> m[id].id == id
}

pub open spec fn faction_names(m: Map<i64, Faction>) -> Map<i64, Seq<char>> {
    Map::new(|id: i64| m.contains_key(id), |id: i64| m[id].name@)
}

pub open spec fn is_faction_table(m: Map<i64, Faction>, t: Map<i64, Seq<char>>) -> bool {
    &&& faction_names(m) == t
    &&& forall|id: i64| #[trigger] m.contains_key(id) ==> m[id].id == id
}

pub open spec fn sector_names(m: Map<i64, Sector>) -> Map<i64, Seq<char>> {
    Map::new(|id: i64| m.contains_key(id), |id: i64| m[id].name@)
}

/// The static sector table is a name fallback only: its entries carry no
/// member planets.
pub open spec fn is_sector_table(m: Map<i64, Sector>, t: Map<i64, Seq<char>>) -> bool {
    &&& sector_names(m) == t
    &&& forall|id: i64| #[trigger] m.contains_key(id) ==> m[id].id == id
        && m[id].planets@ == Seq::<i64>::empty()
}

/// Build the planet table from a TOML text.
pub fn parse_planets(text: &str) -> (r: Option<HashMap<i64, Planet>>)
    ensures
        r is Some <==> table_of(text@) is Some,
        r matches Some(m) ==> is_planet_table(m@, table_of(text@).unwrap()),
{
    let pairs = match parse_string_table(text) {
        None => { return None; },
        Some(p) => p,
    };
    let ghost full = pairs_view(pairs@);
    let mut m: HashMap<i64, Planet> = HashMap::new();
    let mut i: usize = 0;
    while i < pairs.len()
        invariant
            0 <= i <= pairs@.len(),
            full == pairs_view(pairs@),
            toml_pairs(text@) == Some(full),
            build_table(full.subrange(0, i as int)) matches Some(t) && planet_names(m@) == t,
            forall|id: i64| #[trigger] m@.contains_key(id) ==> m@[id].id == id,
        decreases pairs@.len() - i,
    {
        let ghost prefix = full.subrange(0, i as int);
        let ghost prefix1 = full.subrange(0, i + 1);
        proof {
            assert(prefix1.drop_last() =~= prefix);
            assert(full[i as int] == (pairs@[i as int].0@, pairs@[i as int].1@));
        }
        let key = &pairs[i].0;
        let name = &pairs[i].1;
        match parse_i64(key.as_str()) {
            None => {
                proof {
                    lemma_build_table_none(full, i as int);
                }
                return None;
            },
            Some(id) => {
                let ghost told = build_table(prefix).unwrap();
                m.insert(id, Planet { id, name: name.clone() });
                proof {
                    assert(planet_names(m@) =~= told.insert(id, pairs@[i as int].1@));
                }
            },
        }
        i += 1;
    }
    proof {
        assert(full.subrange(0, i as int) =~= full);
    }
    Some(m)
}

/// Build the faction table from a TOML text.
pub fn parse_factions(text: &str) -> (r: Option<HashMap<i64, Faction>>)
    ensures
        r is Some <==> table_of(text@) is Some,
        r matches Some(m) ==> is_faction_table(m@, table_of(text@).unwrap()),
{
    let pairs = match parse_string_table(text) {
        None => { return None; },
        Some(p) => p,
    };
    let ghost full = pairs_view(pairs@);
    let mut m: HashMap<i64, Faction> = HashMap::new();
    let mut i: usize = 0;
    while i < pairs.len()
        invariant
            0 <= i <= pairs@.len(),
            full == pairs_view(pairs@),
            toml_pairs(text@) == Some(full),
            build_table(full.subrange(0, i as int)) matches Some(t) && faction_names(m@) == t,
            forall|id: i64| #[trigger] m@.contains_key(id) ==> m@[id].id == id,
        decreases pairs@.len() - i,
    {
        let ghost prefix = full.subrange(0, i as int);
        let ghost prefix1 = full.subrange(0, i + 1);
        proof {
            assert(prefix1.drop_last() =~= prefix);
            assert(full[i as int] == (pairs@[i as int].0@, pairs@[i as int].1@));
        }
        let key = &pairs[i].0;
        let name = &pairs[i].1;
        match parse_i64(key.as_str()) {
            None => {
                proof {
                    lemma_build_table_none(full, i as int);
                }
                return None;
            },
            Some(id) => {
                let ghost told = build_table(prefix).unwrap();
                m.insert(id, Faction { id, name: name.clone() });
                proof {
                    assert(faction_names(m@) =~= told.insert(id, pairs@[i as int].1@));
                }
            },
        }
        i += 1;
    }
    proof {
        assert(full.subrange(0, i as int) =~= full);
    }
    Some(m)
}

/// Build the sector table from a TOML text. The static table is a name
/// fallback only, so every entry carries an empty member-planet list.
pub fn parse_sectors(text: &str) -> (r: Option<HashMap<i64, Sector>>)
    ensures
        r is Some <==> table_of(text@) is Some,
        r matches Some(m) ==> is_sector_table(m@, table_of(text@).unwrap()),
{
    let pairs = match parse_string_table(text) {
        None => { return None; },
        Some(p) => p,
    };
    let ghost full = pairs_view(pairs@);
    let mut m: HashMap<i64, Sector> = HashMap::new();
    let mut i: usize = 0;
    while i < pairs.len()
        invariant
            0 <= i <= pairs@.len(),
            full == pairs_view(pairs@),
            toml_pairs(text@) == Some(full),
            build_table(full.subrange(0, i as int)) matches Some(t) && sector_names(m@) == t,
            forall|id: i64| #[trigger] m@.contains_key(id) ==> m@[id].id == id
                && m@[id].planets@ == Seq::<i64>::empty(),
        decreases pairs@.len() - i,
    {
        let ghost prefix = full.subrange(0, i as int);
        let ghost prefix1 = full.subrange(0, i + 1);
        proof {
            assert(prefix1.drop_last() =~= prefix);
            assert(full[i as int] == (pairs@[i as int].0@, pairs@[i as int].1@));
        }
        let key = &pairs[i].0;
        let name = &pairs[i].1;
        match parse_i64(key.as_str()) {
            None => {
                proof {
                    lemma_build_table_none(full, i as int);
                }
                return None;
            },
            Some(id) => {
                let ghost told = build_table(prefix).unwrap();
                let planets: Vec<i64> = Vec::new();
                proof {
                    assert(planets@ =~= Seq::<i64>::empty());
                }
                m.insert(id, Sector { id, name: name.clone(), planets });
                proof {
                    assert(sector_names(m@) =~= told.insert(id, pairs@[i as int].1@));
                }
            },
        }
        i += 1;
    }
    proof {
        assert(full.subrange(0, i as int) =~= full);
    }
    Some(m)
}

/// The planets in the game, keyed by id; `None` only if the bundled data is
/// malformed, which is a packaging defect.
pub fn load_planets() -> (r: Option<HashMap<i64, Planet>>)
    ensures
        r is Some <==> planets_table() is Some,
        r matches Some(m) ==> is_planet_table(m@, planets_table().unwrap()),
{
    parse_planets(RAW_PLANETS)
}

/// The active factions in the game, keyed by id.
pub fn load_factions() -> (r: Option<HashMap<i64, Faction>>)
    ensures
        r is Some <==> factions_table() is Some,
        r matches Some(m) ==> is_faction_table(m@, factions_table().unwrap()),
{
    parse_factions(RAW_FACTIONS)
}

/// The sectors in the game, keyed by id.
pub fn load_sectors() -> (r: Option<HashMap<i64, Sector>>)
    ensures
        r is Some <==> sectors_table() is Some,
        r matches Some(m) ==> is_sector_table(m@, sectors_table().unwrap()),
{
    parse_sectors(RAW_SECTORS)
}

} // verus!
