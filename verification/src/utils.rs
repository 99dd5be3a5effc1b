//! Aggregation utilities: pure queries over an already-enriched `Status` or
//! `WarInfo`. They never mutate their input, never perform I/O, and tolerate
//! empty input collections.

use vstd::prelude::*;
use std::collections::HashMap;
use crate::models::Faction;
use crate::models::PlanetInfo;
use crate::models::PlanetStatus;
use crate::models::Sector;
use crate::models::Status;
use crate::models::WarInfo;
use crate::tables::faction_names;
use crate::tables::load_factions;
use crate::tables::load_sectors;
use crate::tables::name_or_empty;
use crate::tables::sector_names;
use crate::tables::static_faction_name;
use crate::tables::static_sector_name;

verus! {

/// Sum of `players` over a sequence of planet statuses.
pub open spec fn sum_players(s: Seq<PlanetStatus>) -> int
    decreases s.len(),
{
    if s.len() == 0 {
        0
    } else {
        sum_players(s.drop_last()) + s.last().players
    }
}

/// The total player count of a snapshot: the exact sum of `players` over all
/// planet statuses, `0` for an empty collection.
pub fn get_total_player_count(status: &Status) -> (r: i64)
    requires
        i64::MIN <= sum_players(status.planet_status@) <= i64::MAX,
    ensures
        r as int == sum_players(status.planet_status@),
{
    let ghost s = status.planet_status@;
    let n = status.planet_status.len();
    let mut total: i128 = 0;
    let mut i: usize = 0;
    while i < n
        invariant
            n == s.len(),
            s == status.planet_status@,
            0 <= i <= n,
            total == sum_players(s.subrange(0, i as int)),
            -0x8000_0000_0000_0000i128 * (i as i128) <= total <= 0x7fff_ffff_ffff_ffffi128 * (
            i as i128),
        decreases n - i,
    {
        let p = status.planet_status[i].players;
        proof {
            assert(s.subrange(0, i + 1).drop_last() =~= s.subrange(0, i as int));
        }
        total = total + p as i128;
        i += 1;
    }
    proof {
        assert(s.subrange(0, i as int) =~= s);
    }
    total as i64
}

/// How many planet statuses name `f` as owner.
pub open spec fn count_owner(s: Seq<PlanetStatus>, f: i64) -> int
    decreases s.len(),
{
    if s.len() == 0 {
        0
    } else {
        count_owner(s.drop_last(), f) + if s.last().owner == f {
            1int
        } else {
            0int
        }
    }
}

/// Some planet status names `f` as owner.
pub open spec fn has_owner(s: Seq<PlanetStatus>, f: i64) -> bool {
    exists|k: int| 0 <= k < s.len() && (#[trigger] s[k]).owner == f
}

proof fn lemma_count_owner_bounds(s: Seq<PlanetStatus>, f: i64)
    ensures
        0 <= count_owner(s, f) <= s.len(),
    decreases s.len(),
{
    if s.len() > 0 {
        lemma_count_owner_bounds(s.drop_last(), f);
    }
}

proof fn lemma_count_owner_zero(s: Seq<PlanetStatus>, f: i64)
    requires
        !has_owner(s, f),
    ensures
        count_owner(s, f) == 0,
    decreases s.len(),
{
    if s.len() > 0 {
        assert(!has_owner(s.drop_last(), f));
        lemma_count_owner_zero(s.drop_last(), f);
    }
}

/// The faction distribution of a snapshot: for each faction id observed as an
/// owner, the number of planets it owns.
pub fn get_faction_distribution(status: &Status) -> (r: HashMap<i64, i64>)
    requires
        status.planet_status@.len() <= i64::MAX,
    ensures
        forall|f: i64| #[trigger]
            r@.contains_key(f) ==> has_owner(status.planet_status@, f) && r@[f] as int
                == count_owner(status.planet_status@, f),
        forall|f: i64| has_owner(status.planet_status@, f) ==> r@.contains_key(f),
{
    let ghost s = status.planet_status@;
    let n = status.planet_status.len();
    let mut r: HashMap<i64, i64> = HashMap::new();
    let mut i: usize = 0;
    while i < n
        invariant
            n == s.len(),
            s == status.planet_status@,
            s.len() <= i64::MAX,
            0 <= i <= n,
            forall|f: i64| #[trigger]
                r@.contains_key(f) ==> has_owner(s.subrange(0, i as int), f) && r@[f] as int
                    == count_owner(s.subrange(0, i as int), f),
            forall|f: i64| has_owner(s.subrange(0, i as int), f) ==> r@.contains_key(f),
        decreases n - i,
    {
        let ghost prefix = s.subrange(0, i as int);
        let ghost prefix1 = s.subrange(0, i + 1);
        let owner = status.planet_status[i].owner;
        proof {
            assert(prefix1.drop_last() =~= prefix);
            assert(prefix1.last() == s[i as int]);
            lemma_count_owner_bounds(prefix, owner);
        }
        let cur: i64 = match r.get(&owner) {
            Some(c) => *c,
            None => {
                proof {
                    if has_owner(prefix, owner) {
                        assert(r@.contains_key(owner));
                    }
                    lemma_count_owner_zero(prefix, owner);
                }
                0
            },
        };
        r.insert(owner, cur + 1);
        proof {
            assert forall|f: i64| #[trigger] r@.contains_key(f) implies has_owner(prefix1, f)
                && r@[f] as int == count_owner(prefix1, f) by {
                if f == owner {
                    assert(prefix1[i as int].owner == f);
                } else {
                    assert(count_owner(prefix1, f) == count_owner(prefix, f));
                    let k = choose|k: int| 0 <= k < prefix.len() && prefix[k].owner == f;
                    assert(prefix1[k].owner == f);
                }
            }
            assert forall|f: i64| has_owner(prefix1, f) implies r@.contains_key(f) by {
                let k = choose|k: int| 0 <= k < prefix1.len() && prefix1[k].owner == f;
                if k < i {
                    assert(prefix[k].owner == f);
                }
            }
        }
        i += 1;
    }
    proof {
        assert(s.subrange(0, i as int) =~= s);
    }
    r
}

/// A strictly ascending sequence of ids.
pub open spec fn strictly_sorted(s: Seq<i64>) -> bool {
    forall|k1: int, k2: int| 0 <= k1 < k2 < s.len() ==> s[k1] < s[k2]
}

/// Insert an id into a strictly sorted sequence, keeping it sorted and
/// deduplicated.
fn insert_sorted_unique(v: &mut Vec<i64>, x: i64)
    requires
        strictly_sorted(old(v)@),
    ensures
        strictly_sorted(final(v)@),
        final(v)@.contains(x),
        forall|y: i64| #[trigger] final(v)@.contains(y) ==> old(v)@.contains(y) || y == x,
        forall|y: i64| #[trigger] old(v)@.contains(y) ==> final(v)@.contains(y),
{
    let ghost old_view = v@;
    let mut pos: usize = 0;
    while pos < v.len() && v[pos] < x
        invariant
            v@ == old_view,
            0 <= pos <= v@.len(),
            forall|k: int| 0 <= k < pos ==> v@[k] < x,
        decreases v@.len() - pos,
    {
        pos += 1;
    }
    if pos < v.len() && v[pos] == x {
        proof {
            assert(v@[pos as int] == x);
            assert(v@.contains(x));
        }
        return ;
    }
    v.insert(pos, x);
    proof {
        assert(v@[pos as int] == x);
        assert(v@.contains(x));
        assert forall|k1: int, k2: int| 0 <= k1 < k2 < v@.len() implies v@[k1] < v@[k2] by {
            if k2 <= pos {
                assert(v@[k1] == old_view[k1] && (k2 < pos ==> v@[k2] == old_view[k2]));
            } else if k1 >= pos {
                assert(k1 > pos ==> v@[k1] == old_view[k1 - 1]);
                assert(v@[k2] == old_view[k2 - 1]);
            } else {
                assert(v@[k1] == old_view[k1]);
                assert(v@[k2] == old_view[k2 - 1]);
            }
        }
        assert forall|y: i64| #[trigger] v@.contains(y) implies old_view.contains(y) || y == x by {
            let k = choose|k: int| 0 <= k < v@.len() && v@[k] == y;
            if k < pos {
                assert(old_view[k] == y);
            } else if k > pos {
                assert(old_view[k - 1] == y);
            }
        }
        assert forall|y: i64| #[trigger] old_view.contains(y) implies v@.contains(y) by {
            let k = choose|k: int| 0 <= k < old_view.len() && old_view[k] == y;
            if k < pos {
                assert(v@[k] == y);
            } else {
                assert(v@[k + 1] == y);
            }
        }
    }
}

/// The name the faction map gives an id, or the empty string where absent.
fn faction_name_or_empty(m: &HashMap<i64, Faction>, id: i64) -> (r: String)
    ensures
        r@ == name_or_empty(faction_names(m@), id),
{
    match m.get(&id) {
        Some(f) => f.name.clone(),
        None => String::new(),
    }
}

/// The distinct faction ids observed as planet owners in a snapshot, sorted
/// ascending and deduplicated, each named from the static faction table
/// (empty when unknown there).
pub fn get_factions(status: &Status) -> (r: Vec<Faction>)
    ensures
        strictly_sorted(r@.map_values(|f: Faction| f.id)),
        forall|k: int|
            0 <= k < r@.len() ==> has_owner(status.planet_status@, (#[trigger] r@[k]).id)
                && r@[k].name@ == static_faction_name(r@[k].id),
        forall|f: i64|
            has_owner(status.planet_status@, f) ==> exists|k: int|
                0 <= k < r@.len() && (#[trigger] r@[k]).id == f,
{
    let ghost s = status.planet_status@;
    let n = status.planet_status.len();
    let mut ids: Vec<i64> = Vec::new();
    let mut i: usize = 0;
    while i < n
        invariant
            n == s.len(),
            s == status.planet_status@,
            0 <= i <= n,
            strictly_sorted(ids@),
            forall|y: i64| #[trigger] ids@.contains(y) ==> has_owner(s.subrange(0, i as int), y),
            forall|y: i64| has_owner(s.subrange(0, i as int), y) ==> ids@.contains(y),
        decreases n - i,
    {
        let ghost prefix = s.subrange(0, i as int);
        let ghost prefix1 = s.subrange(0, i + 1);
        let owner = status.planet_status[i].owner;
        let ghost ids_before = ids@;
        insert_sorted_unique(&mut ids, owner);
        proof {
            assert(prefix1[i as int].owner == owner);
            assert forall|y: i64| #[trigger] ids@.contains(y) implies has_owner(prefix1, y) by {
                if y != owner {
                    assert(ids_before.contains(y));
                    assert(has_owner(prefix, y));
                    let k = choose|k: int| 0 <= k < prefix.len() && prefix[k].owner == y;
                    assert(prefix1[k].owner == y);
                }
            }
            assert forall|y: i64| has_owner(prefix1, y) implies ids@.contains(y) by {
                let k = choose|k: int| 0 <= k < prefix1.len() && prefix1[k].owner == y;
                if k < i {
                    assert(prefix[k].owner == y);
                    assert(ids_before.contains(y));
                }
            }
        }
        i += 1;
    }
    proof {
        assert(s.subrange(0, i as int) =~= s);
    }
    let factions = load_factions();
    let mut out: Vec<Faction> = Vec::new();
    let mut j: usize = 0;
    while j < ids.len()
        invariant
            strictly_sorted(ids@),
            forall|y: i64| #[trigger] ids@.contains(y) ==> has_owner(s, y),
            forall|y: i64| has_owner(s, y) ==> ids@.contains(y),
            s == status.planet_status@,
            0 <= j <= ids@.len(),
            out@.len() == j,
            forall|k: int| 0 <= k < j ==> (#[trigger] out@[k]).id == ids@[k],
            forall|k: int|
                0 <= k < j ==> (#[trigger] out@[k]).name@ == static_faction_name(ids@[k]),
            factions is Some <==> crate::tables::factions_table() is Some,
            factions matches Some(m) ==> crate::tables::is_faction_table(
                m@,
                crate::tables::factions_table().unwrap(),
            ),
        decreases ids@.len() - j,
    {
        let id = ids[j];
        let name = match &factions {
            Some(m) => faction_name_or_empty(m, id),
            None => String::new(),
        };
        out.push(Faction { id, name });
        j += 1;
    }
    proof {
        assert(out@.map_values(|f: Faction| f.id) =~= ids@);
        assert forall|k: int| 0 <= k < out@.len() implies has_owner(s, (#[trigger] out@[k]).id) by {
            assert(ids@[k] == out@[k].id);
            assert(ids@.contains(ids@[k]));
        }
        assert forall|f: i64| has_owner(s, f) implies exists|k: int|
            0 <= k < out@.len() && (#[trigger] out@[k]).id == f by {
            assert(ids@.contains(f));
            let k = choose|k: int| 0 <= k < ids@.len() && ids@[k] == f;
            assert(out@[k].id == f);
        }
    }
    out
}

/// Some planet info lies in sector `sid`.
pub open spec fn has_sector(pis: Seq<PlanetInfo>, sid: i64) -> bool {
    exists|k: int| 0 <= k < pis.len() && (#[trigger] pis[k]).sector == sid
}

/// Some planet info with index `p` lies in sector `sid`.
pub open spec fn has_planet_in_sector(pis: Seq<PlanetInfo>, sid: i64, p: i64) -> bool {
    exists|k: int| 0 <= k < pis.len() && (#[trigger] pis[k]).sector == sid && pis[k].index == p
}

/// The name the sector map gives an id, or the empty string where absent.
fn sector_name_or_empty(m: &HashMap<i64, Sector>, id: i64) -> (r: String)
    ensures
        r@ == name_or_empty(sector_names(m@), id),
{
    match m.get(&id) {
        Some(s) => s.name.clone(),
        None => String::new(),
    }
}

/// Reconstruct the sectors from a live war info, rather than from the static
/// table: the live planet set may include sectors not yet bundled. Sector ids
/// are the distinct `sector` values observed, sorted ascending; each sector's
/// planet list is the set of planet indices observed with that sector id,
/// sorted ascending and deduplicated; names fall back to the static sector
/// table, empty when unknown there.
pub fn get_sectors(war_info: &WarInfo) -> (r: Vec<Sector>)
    ensures
        strictly_sorted(r@.map_values(|sec: Sector| sec.id)),
        forall|k: int|
            0 <= k < r@.len() ==> {
                &&& has_sector(war_info.planet_infos@, (#[trigger] r@[k]).id)
                &&& r@[k].name@ == static_sector_name(r@[k].id)
                &&& strictly_sorted(r@[k].planets@)
            },
        forall|k: int, p: i64|
            0 <= k < r@.len() && (#[trigger] r@[k].planets@.contains(p)) ==> has_planet_in_sector(
                war_info.planet_infos@,
                r@[k].id,
                p,
            ),
        forall|k: int, p: i64|
            0 <= k < r@.len() && #[trigger] has_planet_in_sector(
                war_info.planet_infos@,
                r@[k].id,
                p,
            ) ==> r@[k].planets@.contains(p),
        forall|sid: i64|
            has_sector(war_info.planet_infos@, sid) ==> exists|k: int|
                0 <= k < r@.len() && (#[trigger] r@[k]).id == sid,
{
    let ghost pis = war_info.planet_infos@;
    let n = war_info.planet_infos.len();
    let mut ids: Vec<i64> = Vec::new();
    let mut i: usize = 0;
    while i < n
        invariant
            n == pis.len(),
            pis == war_info.planet_infos@,
            0 <= i <= n,
            strictly_sorted(ids@),
            forall|y: i64| #[trigger] ids@.contains(y) ==> has_sector(pis.subrange(0, i as int), y),
            forall|y: i64| has_sector(pis.subrange(0, i as int), y) ==> ids@.contains(y),
        decreases n - i,
    {
        let ghost prefix = pis.subrange(0, i as int);
        let ghost prefix1 = pis.subrange(0, i + 1);
        let sid = war_info.planet_infos[i].sector;
        let ghost ids_before = ids@;
        insert_sorted_unique(&mut ids, sid);
        proof {
            assert(prefix1.drop_last() =~= prefix);
            assert(prefix1[i as int].sector == sid);
            assert forall|y: i64| #[trigger] ids@.contains(y) implies has_sector(prefix1, y) by {
                if y != sid {
                    assert(ids_before.contains(y));
                    assert(has_sector(prefix, y));
                    let k = choose|k: int| 0 <= k < prefix.len() && prefix[k].sector == y;
                    assert(prefix1[k].sector == y);
                }
            }
            assert forall|y: i64| has_sector(prefix1, y) implies ids@.contains(y) by {
                let k = choose|k: int| 0 <= k < prefix1.len() && prefix1[k].sector == y;
                if k < i {
                    assert(prefix[k].sector == y);
                    assert(ids_before.contains(y));
                }
            }
        }
        i += 1;
    }
    proof {
        assert(pis.subrange(0, i as int) =~= pis);
    }
    let sectors = load_sectors();
    let mut out: Vec<Sector> = Vec::new();
    let mut j: usize = 0;
    while j < ids.len()
        invariant
            strictly_sorted(ids@),
            forall|y: i64| #[trigger] ids@.contains(y) ==> has_sector(pis, y),
            forall|y: i64| has_sector(pis, y) ==> ids@.contains(y),
            pis == war_info.planet_infos@,
            n == pis.len(),
            0 <= j <= ids@.len(),
            out@.len() == j,
            forall|k: int| 0 <= k < j ==> (#[trigger] out@[k]).id == ids@[k],
            forall|k: int|
                0 <= k < j ==> (#[trigger] out@[k]).name@ == static_sector_name(ids@[k])
                    && strictly_sorted(out@[k].planets@),
            forall|k: int, p: i64|
                0 <= k < j && (#[trigger] out@[k].planets@.contains(p)) ==> has_planet_in_sector(
                    pis,
                    out@[k].id,
                    p,
                ),
            forall|k: int, p: i64|
                0 <= k < j && #[trigger] has_planet_in_sector(pis, out@[k].id, p)
                    ==> out@[k].planets@.contains(p),
            sectors is Some <==> crate::tables::sectors_table() is Some,
            sectors matches Some(m) ==> crate::tables::is_sector_table(
                m@,
                crate::tables::sectors_table().unwrap(),
            ),
        decreases ids@.len() - j,
    {
        let sid = ids[j];
        let mut pl: Vec<i64> = Vec::new();
        let mut t: usize = 0;
        while t < war_info.planet_infos.len()
            invariant
                n == pis.len(),
                pis == war_info.planet_infos@,
                0 <= t <= n,
                strictly_sorted(pl@),
                forall|p: i64| #[trigger]
                    pl@.contains(p) ==> has_planet_in_sector(pis.subrange(0, t as int), sid, p),
                forall|p: i64|
                    has_planet_in_sector(pis.subrange(0, t as int), sid, p) ==> pl@.contains(p),
            decreases n - t,
        {
            let ghost prefix = pis.subrange(0, t as int);
            let ghost prefix1 = pis.subrange(0, t + 1);
            proof {
                assert(prefix1.drop_last() =~= prefix);
            }
            if war_info.planet_infos[t].sector == sid {
                let p = war_info.planet_infos[t].index;
                let ghost pl_before = pl@;
                insert_sorted_unique(&mut pl, p);
                proof {
                    assert(prefix1[t as int].sector == sid && prefix1[t as int].index == p);
                    assert forall|q: i64| #[trigger] pl@.contains(q) implies has_planet_in_sector(
                        prefix1,
                        sid,
                        q,
                    ) by {
                        if q != p {
                            assert(pl_before.contains(q));
                            assert(has_planet_in_sector(prefix, sid, q));
                            let k = choose|k: int|
                                0 <= k < prefix.len() && prefix[k].sector == sid && prefix[k].index
                                    == q;
                            assert(prefix1[k].sector == sid && prefix1[k].index == q);
                        }
                    }
                    assert forall|q: i64| has_planet_in_sector(prefix1, sid, q) implies
                        pl@.contains(q) by {
                        let k = choose|k: int|
                            0 <= k < prefix1.len() && prefix1[k].sector == sid && prefix1[k].index
                                == q;
                        if k < t {
                            assert(prefix[k].sector == sid && prefix[k].index == q);
                            assert(pl_before.contains(q));
                        }
                    }
                }
            } else {
                proof {
                    assert forall|q: i64| #[trigger] pl@.contains(q) implies has_planet_in_sector(
                        prefix1,
                        sid,
                        q,
                    ) by {
                        assert(has_planet_in_sector(prefix, sid, q));
                        let k = choose|k: int|
                            0 <= k < prefix.len() && prefix[k].sector == sid && prefix[k].index
                                == q;
                        assert(prefix1[k].sector == sid && prefix1[k].index == q);
                    }
                    assert forall|q: i64| has_planet_in_sector(prefix1, sid, q) implies
                        pl@.contains(q) by {
                        let k = choose|k: int|
                            0 <= k < prefix1.len() && prefix1[k].sector == sid && prefix1[k].index
                                == q;
                        assert(k < t);
                        assert(prefix[k].sector == sid && prefix[k].index == q);
                    }
                }
            }
            t += 1;
        }
        proof {
            assert(pis.subrange(0, t as int) =~= pis);
        }
        let name = match &sectors {
            Some(m) => sector_name_or_empty(m, sid),
            None => String::new(),
        };
        out.push(Sector { id: sid, name, planets: pl });
        j += 1;
    }
    proof {
        assert(out@.map_values(|sec: Sector| sec.id) =~= ids@);
        assert forall|k: int| 0 <= k < out@.len() implies has_sector(
            pis,
            (#[trigger] out@[k]).id,
        ) by {
            assert(ids@[k] == out@[k].id);
            assert(ids@.contains(ids@[k]));
        }
        assert forall|sid: i64| has_sector(pis, sid) implies exists|k: int|
            0 <= k < out@.len() && (#[trigger] out@[k]).id == sid by {
            assert(ids@.contains(sid));
            let k = choose|k: int| 0 <= k < ids@.len() && ids@[k] == sid;
            assert(out@[k].id == sid);
        }
    }
    out
}

/// Sum of per-faction counts over a sequence of faction ids.
pub open spec fn sum_counts(keys: Seq<i64>, s: Seq<PlanetStatus>) -> int
    decreases keys.len(),
{
    if keys.len() == 0 {
        0
    } else {
        sum_counts(keys.drop_last(), s) + count_owner(s, keys.last())
    }
}

proof fn lemma_sum_counts_empty(keys: Seq<i64>)
    ensures
        sum_counts(keys, Seq::empty()) == 0,
    decreases keys.len(),
{
    if keys.len() > 0 {
        lemma_sum_counts_empty(keys.drop_last());
    }
}

proof fn lemma_count_owner_push(s: Seq<PlanetStatus>, e: PlanetStatus, f: i64)
    ensures
        count_owner(s.push(e), f) == count_owner(s, f) + if e.owner == f {
            1int
        } else {
            0int
        },
{
    assert(s.push(e).drop_last() =~= s);
    assert(s.push(e).last() == e);
}

proof fn lemma_sum_counts_push(keys: Seq<i64>, s: Seq<PlanetStatus>, e: PlanetStatus)
    requires
        keys.no_duplicates(),
    ensures
        sum_counts(keys, s.push(e)) == sum_counts(keys, s) + if keys.contains(e.owner) {
            1int
        } else {
            0int
        },
    decreases keys.len(),
{
    if keys.len() == 0 {
        assert(!keys.contains(e.owner));
    } else {
        let k0 = keys.drop_last();
        assert(k0.no_duplicates());
        lemma_sum_counts_push(k0, s, e);
        lemma_count_owner_push(s, e, keys.last());
        if keys.last() == e.owner {
            assert(!k0.contains(e.owner)) by {
                if k0.contains(e.owner) {
                    let t = choose|t: int| 0 <= t < k0.len() && k0[t] == e.owner;
                    assert(keys[t] == keys[keys.len() - 1]);
                }
            }
            assert(keys[keys.len() - 1] == e.owner);
            assert(keys.contains(e.owner));
        } else {
            if keys.contains(e.owner) {
                let t = choose|t: int| 0 <= t < keys.len() && keys[t] == e.owner;
                assert(k0[t] == e.owner);
                assert(k0.contains(e.owner));
            }
            if k0.contains(e.owner) {
                let t = choose|t: int| 0 <= t < k0.len() && k0[t] == e.owner;
                assert(keys[t] == e.owner);
                assert(keys.contains(e.owner));
            }
        }
    }
}

/// A strictly sorted id sequence (such as the ids of `get_factions`) is
/// duplicate-free, so `lemma_distribution_total` applies to it.
pub proof fn lemma_strictly_sorted_no_duplicates(s: Seq<i64>)
    requires
        strictly_sorted(s),
    ensures
        s.no_duplicates(),
{
}

/// Law: the values of the faction distribution total the number of
/// planet-status entries — summing the per-faction counts over any
/// duplicate-free list of ids that covers every observed owner yields the
/// length of the collection.
pub proof fn lemma_distribution_total(s: Seq<PlanetStatus>, keys: Seq<i64>)
    requires
        keys.no_duplicates(),
        forall|k: int| 0 <= k < s.len() ==> keys.contains((#[trigger] s[k]).owner),
    ensures
        sum_counts(keys, s) == s.len(),
    decreases s.len(),
{
    if s.len() == 0 {
        lemma_sum_counts_empty(keys);
        assert(sum_counts(keys, s) == sum_counts(keys, Seq::empty())) by {
            assert(s =~= Seq::<PlanetStatus>::empty());
        }
    } else {
        let s0 = s.drop_last();
        assert(forall|k: int| 0 <= k < s0.len() ==> (#[trigger] s0[k]) == s[k]);
        lemma_distribution_total(s0, keys);
        lemma_sum_counts_push(keys, s0, s.last());
        assert(s0.push(s.last()) =~= s);
        assert(keys.contains(s.last().owner));
    }
}

/// Some sector entry has id `sid` and lists planet index `p`.
pub open spec fn sector_entry_for(sectors: Seq<Sector>, sid: i64, p: i64) -> bool {
    exists|k: int|
        0 <= k < sectors.len() && (#[trigger] sectors[k]).id == sid && sectors[k].planets@.contains(
            p,
        )
}

/// Law: every planet index of a war info appears in exactly one reconstructed
/// sector's planet list, and that sector's id is the planet's own `sector`
/// field. Holds of any sectors sequence that satisfies the reconstruction
/// contract, whenever no planet index is listed with two different sector
/// ids.
pub proof fn lemma_sectors_partition(pis: Seq<PlanetInfo>, sectors: Seq<Sector>)
    requires
        strictly_sorted(sectors.map_values(|sec: Sector| sec.id)),
        forall|sid: i64|
            has_sector(pis, sid) ==> exists|k: int|
                0 <= k < sectors.len() && (#[trigger] sectors[k]).id == sid,
        forall|k: int, p: i64|
            0 <= k < sectors.len() && #[trigger] has_planet_in_sector(pis, sectors[k].id, p)
                ==> sectors[k].planets@.contains(p),
        forall|k: int, p: i64|
            0 <= k < sectors.len() && (#[trigger] sectors[k].planets@.contains(p))
                ==> has_planet_in_sector(pis, sectors[k].id, p),
        forall|j1: int, j2: int|
            0 <= j1 < pis.len() && 0 <= j2 < pis.len() && (#[trigger] pis[j1]).index == (
            #[trigger] pis[j2]).index ==> pis[j1].sector == pis[j2].sector,
    ensures
        forall|j: int|
            0 <= j < pis.len() ==> sector_entry_for(
                sectors,
                (#[trigger] pis[j]).sector,
                pis[j].index,
            ),
        forall|k1: int, k2: int, p: i64|
            0 <= k1 < sectors.len() && 0 <= k2 < sectors.len() && (#[trigger] sectors[
            k1].planets@.contains(p)) && (#[trigger] sectors[k2].planets@.contains(p)) ==> k1 == k2,
{
    assert forall|j: int| 0 <= j < pis.len() implies sector_entry_for(
        sectors,
        (#[trigger] pis[j]).sector,
        pis[j].index,
    ) by {
        let sid = pis[j].sector;
        assert(has_sector(pis, sid));
        let k = choose|k: int| 0 <= k < sectors.len() && (#[trigger] sectors[k]).id == sid;
        assert(has_planet_in_sector(pis, sid, pis[j].index));
        assert(sectors[k].planets@.contains(pis[j].index));
    }
    assert forall|k1: int, k2: int, p: i64|
        0 <= k1 < sectors.len() && 0 <= k2 < sectors.len() && (#[trigger] sectors[
        k1].planets@.contains(p)) && (#[trigger] sectors[k2].planets@.contains(p)) implies k1
        == k2 by {
        assert(has_planet_in_sector(pis, sectors[k1].id, p));
        assert(has_planet_in_sector(pis, sectors[k2].id, p));
        let j1 = choose|j: int|
            0 <= j < pis.len() && (#[trigger] pis[j]).sector == sectors[k1].id && pis[j].index
                == p;
        let j2 = choose|j: int|
            0 <= j < pis.len() && (#[trigger] pis[j]).sector == sectors[k2].id && pis[j].index
                == p;
        assert(pis[j1].sector == pis[j2].sector);
        let ids = sectors.map_values(|sec: Sector| sec.id);
        assert(ids[k1] == sectors[k1].id && ids[k2] == sectors[k2].id);
        if k1 < k2 {
            assert(ids[k1] < ids[k2]);
        }
        if k2 < k1 {
            assert(ids[k2] < ids[k1]);
        }
    }
}

/// The player counts of a sequence of planet statuses, in order.
pub open spec fn players_of(s: Seq<PlanetStatus>) -> Seq<i64> {
    s.map_values(|ps: PlanetStatus| ps.players)
}

/// Position `a` comes before position `b` in the stable descending order on
/// player counts: a strictly higher count, or an equal count and an earlier
/// original position.
pub open spec fn ranked_before(players: Seq<i64>, a: int, b: int) -> bool {
    players[a] > players[b] || (players[a] == players[b] && a < b)
}

/// Position `j` occurs in `o`.
pub open spec fn order_contains(o: Seq<usize>, j: int) -> bool {
    exists|k: int| 0 <= k < o.len() && (#[trigger] o[k]) as int == j
}

/// `o` lists every position of `players` exactly once, by descending player
/// count, positions with equal counts in their original order.
pub open spec fn is_stable_desc_order(players: Seq<i64>, o: Seq<usize>) -> bool {
    &&& o.len() == players.len()
    &&& forall|k: int| 0 <= k < o.len() ==> ((#[trigger] o[k]) as int) < players.len()
    &&& forall|j: int| 0 <= j < players.len() ==> order_contains(o, j)
    &&& forall|k1: int, k2: int|
        0 <= k1 < k2 < o.len() ==> ranked_before(players, o[k1] as int, o[k2] as int)
}

/// The top planets of a snapshot by player count: all planet statuses sorted
/// by non-increasing player count, the original order kept among equal
/// counts, truncated to the first `count`.
pub fn get_top_planets_by_player_count<'a>(status: &'a Status, count: usize) -> (r: Vec<
    (&'a PlanetStatus, i64),
>)
    ensures
        r@.len() == if count as int <= status.planet_status@.len() {
            count as int
        } else {
            status.planet_status@.len() as int
        },
        forall|k: int| 0 <= k < r@.len() ==> (#[trigger] r@[k]).1 == r@[k].0.players,
        forall|k1: int, k2: int| 0 <= k1 <= k2 < r@.len() ==> r@[k1].1 >= r@[k2].1,
        exists|o: Seq<usize>|
            is_stable_desc_order(players_of(status.planet_status@), o) && forall|k: int|
                0 <= k < r@.len() ==> *(#[trigger] r@[k]).0 == status.planet_status@[o[k] as int]
                    && r@[k].1 == players_of(status.planet_status@)[o[k] as int],
{
    let ghost s = status.planet_status@;
    let ghost players = players_of(s);
    let n = status.planet_status.len();
    let mut idx: Vec<usize> = Vec::new();
    let mut i: usize = 0;
    while i < n
        invariant
            n == s.len(),
            s == status.planet_status@,
            players == players_of(s),
            0 <= i <= n,
            idx@.len() == i,
            forall|k: int| 0 <= k < idx@.len() ==> ((#[trigger] idx@[k]) as int) < i,
            forall|j: int| 0 <= j < i ==> order_contains(idx@, j),
            forall|k1: int, k2: int|
                0 <= k1 < k2 < idx@.len() ==> ranked_before(players, idx@[k1] as int, idx@[
                k2] as int),
        decreases n - i,
    {
        let pi = status.planet_status[i].players;
        proof {
            assert(players[i as int] == pi);
        }
        let ghost idx_before = idx@;
        let mut pos: usize = 0;
        while pos < idx.len() && status.planet_status[idx[pos]].players >= pi
            invariant
                n == s.len(),
                s == status.planet_status@,
                players == players_of(s),
                idx@ == idx_before,
                idx@.len() == i,
                i < n,
                pi == players[i as int],
                forall|k: int| 0 <= k < idx@.len() ==> ((#[trigger] idx@[k]) as int) < i,
                forall|j: int| 0 <= j < i ==> order_contains(idx@, j),
                forall|k1: int, k2: int|
                    0 <= k1 < k2 < idx@.len() ==> ranked_before(players, idx@[k1] as int, idx@[
                    k2] as int),
                0 <= pos <= idx@.len(),
                forall|k: int| 0 <= k < pos ==> players[(#[trigger] idx@[k]) as int] >= pi,
            decreases idx@.len() - pos,
        {
            proof {
                assert(players[idx@[pos as int] as int] == s[idx@[pos as int] as int].players);
            }
            pos += 1;
        }
        proof {
            if pos < idx@.len() {
                assert(players[idx@[pos as int] as int] < pi);
            }
        }
        idx.insert(pos, i);
        proof {
            assert forall|j: int| 0 <= j < i + 1 implies order_contains(idx@, j) by {
                if j < i {
                    assert(order_contains(idx_before, j));
                    let k = choose|k: int|
                        0 <= k < idx_before.len() && (#[trigger] idx_before[k]) as int == j;
                    if k < pos {
                        assert(idx@[k] as int == j);
                    } else {
                        assert(idx@[k + 1] as int == j);
                    }
                } else {
                    assert(idx@[pos as int] as int == j);
                }
            }
            assert forall|k1: int, k2: int| 0 <= k1 < k2 < idx@.len() implies ranked_before(
                players,
                idx@[k1] as int,
                idx@[k2] as int,
            ) by {
                if k2 < pos {
                } else if k1 > pos {
                    assert(idx@[k1] == idx_before[k1 - 1] && idx@[k2] == idx_before[k2 - 1]);
                } else if k1 < pos && k2 == pos {
                    assert(players[idx_before[k1] as int] >= pi);
                    assert((idx@[k1] as int) < i);
                } else if k1 == pos {
                    assert(idx@[k2] == idx_before[k2 - 1]);
                    if k2 - 1 > pos {
                        assert(ranked_before(
                            players,
                            idx_before[pos as int] as int,
                            idx_before[k2 - 1] as int,
                        ));
                    }
                    assert(players[idx_before[k2 - 1] as int] < pi);
                } else {
                    assert(idx@[k1] == idx_before[k1] && idx@[k2] == idx_before[k2 - 1]);
                    if k2 - 1 > k1 {
                    } else {
                        assert(k2 - 1 == k1);
                        assert(players[idx_before[k1] as int] >= pi);
                        assert(players[idx_before[k1] as int] > players[idx_before[k2 - 1] as int]
                            || idx_before[k1] == idx_before[k2 - 1]);
                    }
                }
            }
        }
        i += 1;
    }
    proof {
        assert(is_stable_desc_order(players, idx@));
    }
    let m = if count < n {
        count
    } else {
        n
    };
    let mut out: Vec<(&'a PlanetStatus, i64)> = Vec::new();
    let mut k: usize = 0;
    while k < m
        invariant
            n == s.len(),
            s == status.planet_status@,
            players == players_of(s),
            m <= n,
            is_stable_desc_order(players, idx@),
            idx@.len() == n,
            0 <= k <= m,
            out@.len() == k,
            forall|t: int|
                0 <= t < k ==> *(#[trigger] out@[t]).0 == s[idx@[t] as int] && out@[t].1
                    == players[idx@[t] as int],
        decreases m - k,
    {
        let j = idx[k];
        let ps_ref = &status.planet_status[j];
        out.push((ps_ref, ps_ref.players));
        k += 1;
    }
    proof {
        assert forall|k1: int, k2: int| 0 <= k1 <= k2 < out@.len() implies out@[k1].1
            >= out@[k2].1 by {
            if k1 < k2 {
                assert(ranked_before(players, idx@[k1] as int, idx@[k2] as int));
            }
        }
        assert forall|t: int| 0 <= t < out@.len() implies (#[trigger] out@[t]).1
            == out@[t].0.players by {
            assert(players[idx@[t] as int] == s[idx@[t] as int].players);
        }
    }
    out
}

/// Law: the stable descending order on player counts is unique — any two
/// position sequences that both list every position by descending count,
/// equal counts in original order, are the same sequence. The result of
/// `get_top_planets_by_player_count` is therefore pinned by its contract.
pub proof fn lemma_stable_desc_order_unique(players: Seq<i64>, o1: Seq<usize>, o2: Seq<usize>)
    requires
        is_stable_desc_order(players, o1),
        is_stable_desc_order(players, o2),
    ensures
        o1 == o2,
{
    lemma_stable_prefix_agree(players, o1, o2, o1.len() as int);
    assert(o1 =~= o2);
}

proof fn lemma_stable_prefix_agree(players: Seq<i64>, o1: Seq<usize>, o2: Seq<usize>, k: int)
    requires
        is_stable_desc_order(players, o1),
        is_stable_desc_order(players, o2),
        0 <= k <= o1.len(),
    ensures
        forall|j: int| 0 <= j < k ==> o1[j] == o2[j],
    decreases k,
{
    if k > 0 {
        lemma_stable_prefix_agree(players, o1, o2, k - 1);
        let a = o1[k - 1];
        let b = o2[k - 1];
        if a != b {
            assert(order_contains(o2, a as int));
            let ma = choose|m: int| 0 <= m < o2.len() && (#[trigger] o2[m]) as int == a as int;
            if ma < k - 1 {
                assert(o1[ma] == a);
                assert(ranked_before(players, o1[ma] as int, o1[k - 1] as int));
                assert(false);
            }
            assert(ma > k - 1);
            assert(ranked_before(players, b as int, a as int));
            assert(order_contains(o1, b as int));
            let mb = choose|m: int| 0 <= m < o1.len() && (#[trigger] o1[m]) as int == b as int;
            if mb < k - 1 {
                assert(o2[mb] == b);
                assert(ranked_before(players, o2[mb] as int, o2[k - 1] as int));
                assert(false);
            }
            assert(mb > k - 1);
            assert(ranked_before(players, a as int, b as int));
            assert(false);
        }
        assert forall|j: int| 0 <= j < k implies o1[j] == o2[j] by {
            if j < k - 1 {
            } else {
                assert(o1[j] == o2[j]);
            }
        }
    }
}

} // verus!
